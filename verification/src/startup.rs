//! Decisions of the start and the end of the process.

use vstd::prelude::*;

use crate::config::Config;
use crate::text;

verus! {

// ---------------------------------------------------------------------------
// Arguments and configuration
// ---------------------------------------------------------------------------

/// Whether the arguments ask for the pre-flight check.
pub fn check_requested(args: &Vec<String>) -> (r: bool)
    ensures
        r == text::texts(args@).contains("--check"@),
{
    let ghost names = text::texts(args@);
    for i in 0..args.len()
        invariant
            names == text::texts(args@),
            forall|j: int| 0 <= j < i ==> #[trigger] names[j] != "--check"@,
    {
        assert(names[i as int] == args@[i as int]@);
        if text::same(args[i].as_str(), "--check") {
            return true;
        }
    }
    false
}

/// Where a configuration file is looked for, in this order: the system-wide
/// place, then the current directory.
pub fn config_paths() -> (paths: [&'static str; 2])
    ensures
        paths[0]@ == "/etc/nicocast/config.toml"@,
        paths[1]@ == "config.toml"@,
{
    ["/etc/nicocast/config.toml", "config.toml"]
}

/// The configuration to run with: the first that could be loaded, and the
/// defaults where none could.
pub fn select_config(loaded: &Vec<Option<Config>>) -> (c: Config)
    ensures
        (exists|i: int|
            0 <= i < loaded@.len() && #[trigger] loaded@[i] == Some(c) && (forall|j: int|
                0 <= j < i ==> loaded@[j] is None)) || ((forall|j: int|
            0 <= j < loaded@.len() ==> loaded@[j] is None) && c.is_default()),
{
    for i in 0..loaded.len()
        invariant
            forall|j: int| 0 <= j < i ==> loaded@[j] is None,
    {
        match &loaded[i] {
            Some(c) => {
                let chosen = c.clone();
                assert(loaded@[i as int] == Some(chosen));
                return chosen;
            },
            None => {},
        }
    }
    Config::default()
}

// ---------------------------------------------------------------------------
// Pre-flight check
// ---------------------------------------------------------------------------

/// What the pre-flight check found on the machine.
pub struct Facts {
    /// The Wi-Fi interface is there.
    pub wifi_interface_found: bool,
    /// The plugin of the hardware H.264 decoder is installed.
    pub hardware_plugin: bool,
    /// The hardware H.264 decoder can be made.
    pub hardware_decoder: bool,
    /// The software H.264 decoder is available.
    pub software_decoder: bool,
    /// Why the RTSP port cannot be bound, where it cannot.
    pub rtsp_bind_error: Option<String>,
    /// A wpa_supplicant socket directory is there.
    pub wpa_socket_found: bool,
    /// Why the health port cannot be bound, where it cannot.
    pub health_bind_error: Option<String>,
}

/// The result of the pre-flight check.
pub struct Report {
    /// Whether all critical checks passed.
    pub ok: bool,
    /// One line for each check, and the verdict.
    pub lines: Vec<String>,
}

/// Whether all critical checks pass: the configuration, the Wi-Fi interface, a
/// decoder, and the RTSP port.
pub open spec fn critical_checks_pass(cfg: Config, facts: Facts) -> bool {
    &&& cfg.problem() is None
    &&& facts.wifi_interface_found
    &&& (facts.hardware_plugin && facts.hardware_decoder) || facts.software_decoder
    &&& facts.rtsp_bind_error is None
}

/// The line on the configuration.
pub open spec fn config_line(cfg: Config) -> Seq<char> {
    match cfg.problem() {
        None => "[OK]   Config validation passed"@,
        Some(p) => "[FAIL] Config validation failed: "@ + p.message(),
    }
}

/// The line on the Wi-Fi interface.
pub open spec fn wifi_line(interface: Seq<char>, found: bool) -> Seq<char> {
    if found {
        "[OK]   WiFi interface '"@ + interface + "' found"@
    } else {
        "[FAIL] WiFi interface '"@ + interface + "' not found at /sys/class/net/"@ + interface
    }
}

/// The line on the decoder.
pub open spec fn decoder_line(hardware: bool, software: bool) -> Seq<char> {
    if hardware {
        "[OK]   GStreamer hardware H.264 decoder (v4l2h264dec) available"@
    } else if software {
        "[WARN] v4l2h264dec not found — will use software fallback avdec_h264 (install gstreamer1.0-libav for this)"@
    } else {
        "[FAIL] Neither v4l2h264dec nor avdec_h264 is available. Install gstreamer1.0-plugins-good (hardware) or gstreamer1.0-libav (software)."@
    }
}

/// The line on the RTSP port.
pub open spec fn rtsp_line(port: u16, error: Option<String>) -> Seq<char> {
    match error {
        None => "[OK]   RTSP port "@ + text::decimal(port as nat) + " is available"@,
        Some(e) => "[FAIL] RTSP port "@ + text::decimal(port as nat) + " is already in use: "@ + e@,
    }
}

/// The line on wpa_supplicant.
pub open spec fn wpa_line(found: bool) -> Seq<char> {
    if found {
        "[OK]   wpa_supplicant socket directory found"@
    } else {
        "[WARN] wpa_supplicant socket directory not found at [\"/run/wpa_supplicant\", \"/var/run/wpa_supplicant\"]. Ensure wpa_supplicant is running with D-Bus support."@
    }
}

/// The line on the health port; there is none where the endpoint is disabled.
pub open spec fn health_lines(port: u16, error: Option<String>) -> Seq<Seq<char>> {
    if port == 0 {
        seq![]
    } else {
        match error {
            None => seq![
                "[OK]   Health port "@ + text::decimal(port as nat) + " is available"@,
            ],
            Some(e) => seq![
                "[WARN] Health port "@ + text::decimal(port as nat) + " is already in use: "@ + e@
                    + " (set health_port = 0 to disable)"@,
            ],
        }
    }
}

/// The last line.
pub open spec fn verdict_line(ok: bool) -> Seq<char> {
    if ok {
        "[PASS] All critical checks passed — nicocast is ready to start."@
    } else {
        "[FAIL] One or more critical checks failed — fix the issues above."@
    }
}

/// The lines of the report.
pub open spec fn report_lines(cfg: Config, facts: Facts) -> Seq<Seq<char>> {
    seq![
        config_line(cfg),
        wifi_line(cfg.wifi_interface@, facts.wifi_interface_found),
        decoder_line(
            facts.hardware_plugin && facts.hardware_decoder,
            facts.software_decoder,
        ),
        rtsp_line(cfg.rtsp_port, facts.rtsp_bind_error),
        wpa_line(facts.wpa_socket_found),
    ] + health_lines(cfg.health_port, facts.health_bind_error) + seq![
        verdict_line(critical_checks_pass(cfg, facts)),
    ]
}

/// Describe the configuration check.
fn describe_config(cfg: &Config) -> (r: (bool, String))
    ensures
        r.0 == (cfg.problem() is None),
        r.1@ == config_line(*cfg),
{
    match cfg.validate() {
        Ok(()) => (true, "[OK]   Config validation passed".to_owned()),
        Err(e) => {
            let mut line = "[FAIL] Config validation failed: ".to_owned();
            line.append(e.message().as_str());
            (false, line)
        },
    }
}

/// Describe the check of the Wi-Fi interface.
fn describe_wifi(interface: &str, found: bool) -> (line: String)
    ensures
        line@ == wifi_line(interface@, found),
{
    if found {
        let mut line = "[OK]   WiFi interface '".to_owned();
        line.append(interface);
        line.append("' found");
        line
    } else {
        let mut line = "[FAIL] WiFi interface '".to_owned();
        line.append(interface);
        line.append("' not found at /sys/class/net/");
        line.append(interface);
        line
    }
}

/// Describe the check of the decoder.
fn describe_decoder(hardware: bool, software: bool) -> (line: String)
    ensures
        line@ == decoder_line(hardware, software),
{
    if hardware {
        "[OK]   GStreamer hardware H.264 decoder (v4l2h264dec) available".to_owned()
    } else if software {
        "[WARN] v4l2h264dec not found — will use software fallback avdec_h264 (install gstreamer1.0-libav for this)".to_owned()
    } else {
        "[FAIL] Neither v4l2h264dec nor avdec_h264 is available. Install gstreamer1.0-plugins-good (hardware) or gstreamer1.0-libav (software).".to_owned()
    }
}

/// Describe the check of the RTSP port.
fn describe_rtsp(port: u16, error: &Option<String>) -> (line: String)
    ensures
        line@ == rtsp_line(port, *error),
{
    match error {
        None => {
            let mut line = "[OK]   RTSP port ".to_owned();
            text::push_decimal(&mut line, port as u64);
            line.append(" is available");
            line
        },
        Some(e) => {
            let mut line = "[FAIL] RTSP port ".to_owned();
            text::push_decimal(&mut line, port as u64);
            line.append(" is already in use: ");
            line.append(e.as_str());
            line
        },
    }
}

/// Describe the check of wpa_supplicant.
fn describe_wpa(found: bool) -> (line: String)
    ensures
        line@ == wpa_line(found),
{
    if found {
        "[OK]   wpa_supplicant socket directory found".to_owned()
    } else {
        "[WARN] wpa_supplicant socket directory not found at [\"/run/wpa_supplicant\", \"/var/run/wpa_supplicant\"]. Ensure wpa_supplicant is running with D-Bus support.".to_owned()
    }
}

/// Describe the check of an enabled health port.
fn describe_health(port: u16, error: &Option<String>) -> (line: String)
    requires
        port != 0,
    ensures
        health_lines(port, *error) == seq![line@],
{
    match error {
        None => {
            let mut line = "[OK]   Health port ".to_owned();
            text::push_decimal(&mut line, port as u64);
            line.append(" is available");
            line
        },
        Some(e) => {
            let mut line = "[WARN] Health port ".to_owned();
            text::push_decimal(&mut line, port as u64);
            line.append(" is already in use: ");
            line.append(e.as_str());
            line.append(" (set health_port = 0 to disable)");
            line
        },
    }
}

/// Judge the prerequisites.  Warnings are allowed; only a critical check that
/// fails makes the whole check fail.
pub fn preflight(cfg: &Config, facts: &Facts) -> (report: Report)
    ensures
        report.ok == critical_checks_pass(*cfg, *facts),
        text::texts(report.lines@) == report_lines(*cfg, *facts),
{
    let mut lines: Vec<String> = Vec::new();
    let (config_ok, line) = describe_config(cfg);
    lines.push(line);
    lines.push(describe_wifi(cfg.wifi_interface.as_str(), facts.wifi_interface_found));
    let hardware = facts.hardware_plugin && facts.hardware_decoder;
    lines.push(describe_decoder(hardware, facts.software_decoder));
    lines.push(describe_rtsp(cfg.rtsp_port, &facts.rtsp_bind_error));
    lines.push(describe_wpa(facts.wpa_socket_found));
    if cfg.health_port != 0 {
        lines.push(describe_health(cfg.health_port, &facts.health_bind_error));
    }
    let ok = config_ok && facts.wifi_interface_found && (hardware || facts.software_decoder)
        && facts.rtsp_bind_error.is_none();
    let verdict = if ok {
        "[PASS] All critical checks passed — nicocast is ready to start."
    } else {
        "[FAIL] One or more critical checks failed — fix the issues above."
    };
    lines.push(verdict.to_owned());
    assert(text::texts(lines@) =~= report_lines(*cfg, *facts));
    Report { ok, lines }
}

/// Whether a line reports a failure.
pub open spec fn reports_failure(line: Seq<char>) -> bool {
    text::occurs_at(line, "[FAIL]"@, 0)
}

/// A line whose second character is no `F` reports no failure.
proof fn lemma_no_failure(line: Seq<char>)
    requires
        line.len() > 1,
        line[1] != 'F',
    ensures
        !reports_failure(line),
{
    reveal_strlit("[FAIL]");
    if reports_failure(line) {
        assert(line.subrange(0, 6)[1] == "[FAIL]"@[1]);
    }
}

/// A line that begins with the mark of a failure reports one.
proof fn lemma_failure(line: Seq<char>)
    requires
        line.len() >= 6,
        line[0] == '[' && line[1] == 'F' && line[2] == 'A' && line[3] == 'I' && line[4] == 'L'
            && line[5] == ']',
    ensures
        reports_failure(line),
{
    reveal_strlit("[FAIL]");
    assert(line.subrange(0, 6) =~= "[FAIL]"@);
}

/// The check fails exactly where one of the lines of its report says so; a
/// warning is never fatal.
pub proof fn law_report_shows_every_failure(cfg: Config, facts: Facts)
    ensures
        critical_checks_pass(cfg, facts) <==> (forall|i: int|
            0 <= i < report_lines(cfg, facts).len() ==> !reports_failure(
                #[trigger] report_lines(cfg, facts)[i],
            )),
{
    reveal_strlit("[OK]   Config validation passed");
    reveal_strlit("[FAIL] Config validation failed: ");
    reveal_strlit("[OK]   WiFi interface '");
    reveal_strlit("[FAIL] WiFi interface '");
    reveal_strlit("[OK]   GStreamer hardware H.264 decoder (v4l2h264dec) available");
    reveal_strlit(
        "[WARN] v4l2h264dec not found — will use software fallback avdec_h264 (install gstreamer1.0-libav for this)",
    );
    reveal_strlit(
        "[FAIL] Neither v4l2h264dec nor avdec_h264 is available. Install gstreamer1.0-plugins-good (hardware) or gstreamer1.0-libav (software).",
    );
    reveal_strlit("[OK]   RTSP port ");
    reveal_strlit("[FAIL] RTSP port ");
    reveal_strlit("[OK]   wpa_supplicant socket directory found");
    reveal_strlit(
        "[WARN] wpa_supplicant socket directory not found at [\"/run/wpa_supplicant\", \"/var/run/wpa_supplicant\"]. Ensure wpa_supplicant is running with D-Bus support.",
    );
    reveal_strlit("[OK]   Health port ");
    reveal_strlit("[WARN] Health port ");
    reveal_strlit("[PASS] All critical checks passed — nicocast is ready to start.");
    reveal_strlit("[FAIL] One or more critical checks failed — fix the issues above.");
    let ok = critical_checks_pass(cfg, facts);
    let lines = report_lines(cfg, facts);
    let last = lines.len() - 1;
    assert(lines[last] == verdict_line(ok));
    if ok {
        assert forall|i: int| 0 <= i < lines.len() implies !reports_failure(
            #[trigger] lines[i],
        ) by {
            lemma_no_failure(lines[i]);
        }
    } else {
        lemma_failure(lines[last]);
    }
}

/// The exit code of the pre-flight check.
pub fn exit_code(ok: bool) -> (code: i32)
    ensures
        code == if ok {
            0int
        } else {
            1
        },
{
    if ok {
        0
    } else {
        1
    }
}

// ---------------------------------------------------------------------------
// Addresses
// ---------------------------------------------------------------------------

/// A port on all interfaces.
pub open spec fn any_interface(port: u16) -> Seq<char> {
    "0.0.0.0:"@ + text::decimal(port as nat)
}

/// The address on which to listen for connections to a port.
pub fn listen_address(port: u16) -> (addr: String)
    ensures
        addr@ == any_interface(port),
{
    let mut addr = "0.0.0.0:".to_owned();
    text::push_decimal(&mut addr, port as u64);
    addr
}

// ---------------------------------------------------------------------------
// Runtime directory
// ---------------------------------------------------------------------------

/// The runtime directory that is used where none is set.
pub fn fallback_runtime_dir() -> (r: &'static str)
    ensures
        r@ == "/tmp/nicocast-runtime"@,
{
    "/tmp/nicocast-runtime"
}

/// What the value of `XDG_RUNTIME_DIR` calls for.
#[derive(Clone, Copy, PartialEq, Eq, Structural)]
pub enum RuntimeDir {
    /// The directory that is set is used.
    Keep,
    /// None is set; the fallback is used.
    Unset,
    /// What is set is no directory; the fallback is used.
    Invalid,
}

/// Judge the value of `XDG_RUNTIME_DIR`; `is_dir` tells whether it names a
/// directory.  An empty value counts as none.
pub fn judge_runtime_dir(value: Option<&str>, is_dir: bool) -> (r: RuntimeDir)
    ensures
        r == match value {
            None => RuntimeDir::Unset,
            Some(v) => if v@.len() == 0 {
                RuntimeDir::Unset
            } else if is_dir {
                RuntimeDir::Keep
            } else {
                RuntimeDir::Invalid
            },
        },
{
    match value {
        None => RuntimeDir::Unset,
        Some(v) => if v.is_empty() {
            RuntimeDir::Unset
        } else if is_dir {
            RuntimeDir::Keep
        } else {
            RuntimeDir::Invalid
        },
    }
}

// ---------------------------------------------------------------------------
// Shutdown
// ---------------------------------------------------------------------------

/// A task of the process.
pub enum Task {
    Video,
    Rtsp,
    P2p,
    AirPlay,
    Health,
}

/// How a task ended.
pub enum Outcome {
    Finished,
    Panicked,
    Cancelled,
}

/// What ends the process.
pub enum Shutdown {
    /// A task ended.
    TaskEnded(Task, Outcome),
    /// Ctrl-C was pressed.
    Interrupt,
    /// SIGTERM was received.
    Terminate,
}

/// The name of a task.
pub open spec fn task_name(task: Task) -> Seq<char> {
    match task {
        Task::Video => "video pipeline"@,
        Task::Rtsp => "RTSP server"@,
        Task::P2p => "P2P manager"@,
        Task::AirPlay => "AirPlay"@,
        Task::Health => "health endpoint"@,
    }
}

/// The reason for the end of the process.
pub open spec fn shutdown_reason(s: Shutdown) -> Seq<char> {
    match s {
        Shutdown::TaskEnded(task, outcome) => task_name(task) + match outcome {
            Outcome::Finished => " task exited normally"@,
            Outcome::Panicked => " task panicked"@,
            Outcome::Cancelled => " task was cancelled"@,
        },
        Shutdown::Interrupt => "received Ctrl-C signal"@,
        Shutdown::Terminate => "received SIGTERM signal"@,
    }
}

/// The reason for the end of the process, for the log.
pub fn exit_reason(s: &Shutdown) -> (out: String)
    ensures
        out@ == shutdown_reason(*s),
{
    match s {
        Shutdown::TaskEnded(task, outcome) => {
            let name = match task {
                Task::Video => "video pipeline",
                Task::Rtsp => "RTSP server",
                Task::P2p => "P2P manager",
                Task::AirPlay => "AirPlay",
                Task::Health => "health endpoint",
            };
            let how = match outcome {
                Outcome::Finished => " task exited normally",
                Outcome::Panicked => " task panicked",
                Outcome::Cancelled => " task was cancelled",
            };
            let mut out = name.to_owned();
            out.append(how);
            out
        },
        Shutdown::Interrupt => "received Ctrl-C signal".to_owned(),
        Shutdown::Terminate => "received SIGTERM signal".to_owned(),
    }
}

// ---------------------------------------------------------------------------
// Laws
// ---------------------------------------------------------------------------

/// The check is asked for exactly where one of the arguments, whichever it is,
/// is `--check`.
pub proof fn law_check_requested(args: &Vec<String>, r: bool)
    requires
        call_ensures(check_requested, (args,), r),
    ensures
        r <==> exists|i: int| 0 <= i < args@.len() && #[trigger] args@[i]@ == "--check"@,
{
    let names = text::texts(args@);
    if exists|i: int| 0 <= i < args@.len() && #[trigger] args@[i]@ == "--check"@ {
        let i = choose|i: int| 0 <= i < args@.len() && #[trigger] args@[i]@ == "--check"@;
        assert(names[i] == args@[i]@);
    }
    if names.contains("--check"@) {
        let i = choose|i: int| 0 <= i < names.len() && names[i] == "--check"@;
        assert(args@[i]@ == "--check"@);
    }
}

/// A configuration that could be loaded is used whatever comes after it, and
/// is passed over only for one before it.
pub proof fn law_first_loaded_is_used(loaded: &Vec<Option<Config>>, c: Config, i: int)
    requires
        call_ensures(select_config, (loaded,), c),
        0 <= i < loaded@.len(),
        loaded@[i] is Some,
        forall|j: int| 0 <= j < i ==> #[trigger] loaded@[j] is None,
    ensures
        loaded@[i] == Some(c),
{
}

/// Where no configuration could be loaded, the defaults are used.
pub proof fn law_defaults_without_a_file(loaded: &Vec<Option<Config>>, c: Config)
    requires
        call_ensures(select_config, (loaded,), c),
        forall|j: int| 0 <= j < loaded@.len() ==> #[trigger] loaded@[j] is None,
    ensures
        c.device_name@ == "NicoCast-Sink"@,
        c.rtsp_port == 7236,
        c.rtp_port == 16384,
        c.health_port == 8080,
{
}

/// The pre-flight check passes exactly where the configuration is valid, the
/// Wi-Fi interface is there, a decoder can be used and the RTSP port is free:
/// neither wpa_supplicant nor the health port is critical.
pub proof fn law_preflight_verdict(
    cfg: &Config,
    facts: &Facts,
    v: Result<(), crate::config::ConfigError>,
    report: Report,
    code: i32,
)
    requires
        call_ensures(Config::validate, (cfg,), v),
        call_ensures(preflight, (cfg, facts), report),
        call_ensures(exit_code, (report.ok,), code),
    ensures
        report.ok <==> {
            &&& v is Ok
            &&& facts.wifi_interface_found
            &&& (facts.hardware_plugin && facts.hardware_decoder) || facts.software_decoder
            &&& facts.rtsp_bind_error is None
        },
        code == 0 <==> report.ok,
        code == 1 <==> !report.ok,
        report.lines@.last()@ == if report.ok {
            "[PASS] All critical checks passed — nicocast is ready to start."@
        } else {
            "[FAIL] One or more critical checks failed — fix the issues above."@
        },
        report.lines@.len() == if cfg.health_port == 0 {
            6nat
        } else {
            7
        },
{
    let t = text::texts(report.lines@);
    assert(t.len() == report.lines@.len());
    assert(t.last() == report.lines@.last()@);
}

/// Each line of the report says what was found, with the interface, the port
/// and the error that it is about.
pub proof fn law_preflight_lines(
    cfg: &Config,
    facts: &Facts,
    v: Result<(), crate::config::ConfigError>,
    message: String,
    report: Report,
)
    requires
        call_ensures(Config::validate, (cfg,), v),
        v matches Err(e) ==> call_ensures(crate::config::ConfigError::message, (&e,), message),
        call_ensures(preflight, (cfg, facts), report),
    ensures
        report.lines@.len() >= 6,
        v is Ok ==> report.lines@[0]@ == "[OK]   Config validation passed"@,
        v is Err ==> report.lines@[0]@ == "[FAIL] Config validation failed: "@ + message@,
        facts.wifi_interface_found ==> report.lines@[1]@ == "[OK]   WiFi interface '"@
            + cfg.wifi_interface@ + "' found"@,
        !facts.wifi_interface_found ==> report.lines@[1]@ == "[FAIL] WiFi interface '"@
            + cfg.wifi_interface@ + "' not found at /sys/class/net/"@ + cfg.wifi_interface@,
        facts.hardware_plugin && facts.hardware_decoder ==> report.lines@[2]@
            == "[OK]   GStreamer hardware H.264 decoder (v4l2h264dec) available"@,
        !(facts.hardware_plugin && facts.hardware_decoder) && facts.software_decoder
            ==> report.lines@[2]@
            == "[WARN] v4l2h264dec not found — will use software fallback avdec_h264 (install gstreamer1.0-libav for this)"@,
        !(facts.hardware_plugin && facts.hardware_decoder) && !facts.software_decoder
            ==> report.lines@[2]@
            == "[FAIL] Neither v4l2h264dec nor avdec_h264 is available. Install gstreamer1.0-plugins-good (hardware) or gstreamer1.0-libav (software)."@,
        facts.wpa_socket_found ==> report.lines@[4]@
            == "[OK]   wpa_supplicant socket directory found"@,
        !facts.wpa_socket_found ==> report.lines@[4]@
            == "[WARN] wpa_supplicant socket directory not found at [\"/run/wpa_supplicant\", \"/var/run/wpa_supplicant\"]. Ensure wpa_supplicant is running with D-Bus support."@,
        exists|n: Seq<char>|
            text::unsigned(n, 65_535) == Some(cfg.rtsp_port as nat) && report.lines@[3]@
                == #[trigger] said_of_rtsp(n, facts.rtsp_bind_error),
        cfg.health_port != 0 ==> report.lines@.len() == 7 && exists|n: Seq<char>|
            text::unsigned(n, 65_535) == Some(cfg.health_port as nat) && report.lines@[5]@
                == #[trigger] said_of_health(n, facts.health_bind_error),
{
    let t = text::texts(report.lines@);
    assert(t.len() == report.lines@.len());
    assert forall|i: int| 0 <= i < t.len() implies #[trigger] t[i] == report.lines@[i]@ by {}
    assert(t[0] == config_line(*cfg));
    assert(t[0] == report.lines@[0]@);
    assert(t[1] == report.lines@[1]@);
    assert(t[2] == report.lines@[2]@);
    assert(t[4] == report.lines@[4]@);
    let n = text::decimal(cfg.rtsp_port as nat);
    text::law_decimal_round_trip(cfg.rtsp_port as nat, 65_535);
    assert(t[3] == said_of_rtsp(n, facts.rtsp_bind_error));
    if cfg.health_port != 0 {
        let m = text::decimal(cfg.health_port as nat);
        text::law_decimal_round_trip(cfg.health_port as nat, 65_535);
        assert(t[5] == said_of_health(m, facts.health_bind_error));
    }
}

/// What is said of the RTSP port whose number is given.
pub open spec fn said_of_rtsp(port: Seq<char>, error: Option<String>) -> Seq<char> {
    match error {
        None => "[OK]   RTSP port "@ + port + " is available"@,
        Some(e) => "[FAIL] RTSP port "@ + port + " is already in use: "@ + e@,
    }
}

/// What is said of the health port whose number is given.
pub open spec fn said_of_health(port: Seq<char>, error: Option<String>) -> Seq<char> {
    match error {
        None => "[OK]   Health port "@ + port + " is available"@,
        Some(e) => "[WARN] Health port "@ + port + " is already in use: "@ + e@
            + " (set health_port = 0 to disable)"@,
    }
}

/// The address names all interfaces and a number that reads back as the port.
pub proof fn law_listen_address(port: u16, addr: String)
    requires
        call_ensures(listen_address, (port,), addr),
    ensures
        exists|n: Seq<char>|
            text::unsigned(n, 65_535) == Some(port as nat) && addr@ == #[trigger] ("0.0.0.0:"@ + n),
{
    let n = text::decimal(port as nat);
    text::law_decimal_round_trip(port as nat, 65_535);
    assert(addr@ == "0.0.0.0:"@ + n);
}

/// The runtime directory is kept exactly where one is named and is there; a
/// name that is no directory is told from a name that is missing or empty.
pub proof fn law_runtime_dir(value: Option<&str>, is_dir: bool, r: RuntimeDir)
    requires
        call_ensures(judge_runtime_dir, (value, is_dir), r),
    ensures
        r is Unset <==> value is None || value->0@.len() == 0,
        r is Keep <==> value is Some && value->0@.len() > 0 && is_dir,
        r is Invalid <==> value is Some && value->0@.len() > 0 && !is_dir,
{
}

/// The reason names what ended: the task and how it ended, or the signal.
pub proof fn law_exit_reason(s: &Shutdown, out: String)
    requires
        call_ensures(exit_reason, (s,), out),
    ensures
        s is Interrupt ==> out@ == "received Ctrl-C signal"@,
        s is Terminate ==> out@ == "received SIGTERM signal"@,
        s matches Shutdown::TaskEnded(task, outcome) ==> exists|who: Seq<char>, how: Seq<char>|
            {
                &&& out@ == #[trigger] (who + how)
                &&& task is Video ==> who == "video pipeline"@
                &&& task is Rtsp ==> who == "RTSP server"@
                &&& task is P2p ==> who == "P2P manager"@
                &&& task is AirPlay ==> who == "AirPlay"@
                &&& task is Health ==> who == "health endpoint"@
                &&& outcome is Finished ==> how == " task exited normally"@
                &&& outcome is Panicked ==> how == " task panicked"@
                &&& outcome is Cancelled ==> how == " task was cancelled"@
            },
{
    if let Shutdown::TaskEnded(task, outcome) = s {
        let how = match outcome {
            Outcome::Finished => " task exited normally"@,
            Outcome::Panicked => " task panicked"@,
            Outcome::Cancelled => " task was cancelled"@,
        };
        assert(out@ == task_name(*task) + how);
    }
}

/// The system-wide configuration comes before the one in the current directory.
pub proof fn law_config_paths(paths: [&'static str; 2], fallback: &'static str)
    requires
        call_ensures(config_paths, (), paths),
        call_ensures(fallback_runtime_dir, (), fallback),
    ensures
        paths[0]@ == "/etc/nicocast/config.toml"@,
        paths[1]@ == "config.toml"@,
        fallback@ == "/tmp/nicocast-runtime"@,
{
}

} // verus!
