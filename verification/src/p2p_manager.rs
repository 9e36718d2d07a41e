//! Decisions of the P2P manager: reaching wpa_supplicant, preparing the
//! device, and keeping it discoverable.

use vstd::prelude::*;

use crate::config::Config;
use crate::health;
use crate::p2p;
use crate::p2p::{HexError, WfdError, WpsError};
use crate::text;

verus! {

// ---------------------------------------------------------------------------
// Reaching wpa_supplicant
// ---------------------------------------------------------------------------

/// How one attempt to obtain the interface failed.
pub enum ConnectFailure {
    /// wpa_supplicant could not be reached on D-Bus.
    Unreachable,
    /// `GetInterface` failed with this error text.
    Lookup(String),
}

/// What to do next in order to obtain the interface.
pub enum ConnectStep {
    /// Make the attempt of this number.
    Try { attempt: u32 },
    /// Wait, and make the attempt of this number.
    WaitThenTry { secs: u64, attempt: u32 },
    /// Register the interface with `CreateInterface`; its outcome is final.
    CreateInterface,
    /// Give up with this message.
    GiveUp { message: String },
}

/// Whether an error text of `GetInterface` says that the interface is unknown.
pub open spec fn says_unknown(error: Seq<char>) -> bool {
    ||| text::occurs(error, "InterfaceUnknown"@)
    ||| text::occurs(error, "UnknownObject"@)
    ||| text::occurs(error, "NoSuchInterface"@)
}

/// Whether an error text of `GetInterface` says that the interface is unknown.
pub fn is_unknown_interface(error: &str) -> (r: bool)
    ensures
        r == says_unknown(error@),
{
    text::contains(error, "InterfaceUnknown") || text::contains(error, "UnknownObject")
        || text::contains(error, "NoSuchInterface")
}

/// The message after which there is no further attempt.
pub open spec fn give_up_message(
    interface: Seq<char>,
    attempt: u32,
    max_retries: u32,
    failure: ConnectFailure,
) -> Seq<char> {
    match failure {
        ConnectFailure::Unreachable =>
            "creating WpaSupplicant proxy (fi.w1.wpa_supplicant1)"@,
        ConnectFailure::Lookup(_) => "GetInterface('"@ + interface + "') failed (attempt "@
            + text::decimal(attempt as nat) + "/"@ + text::decimal(max_retries as nat) + ")"@,
    }
}

/// What to do next, without the messages.
#[verifier::ext_equal]
pub enum ConnectPlan {
    Try { attempt: u32 },
    WaitThenTry { secs: u64, attempt: u32 },
    CreateInterface,
    GiveUp,
}

impl ConnectStep {
    /// The step without its message.
    pub open spec fn plan(self) -> ConnectPlan {
        match self {
            ConnectStep::Try { attempt } => ConnectPlan::Try { attempt },
            ConnectStep::WaitThenTry { secs, attempt } => ConnectPlan::WaitThenTry {
                secs,
                attempt,
            },
            ConnectStep::CreateInterface => ConnectPlan::CreateInterface,
            ConnectStep::GiveUp { .. } => ConnectPlan::GiveUp,
        }
    }
}

/// Whether a failure says that the interface is unknown.
pub open spec fn unknown_interface(failure: ConnectFailure) -> bool {
    failure matches ConnectFailure::Lookup(e) && says_unknown(e@)
}

/// The first step: no attempt at all is made where none is allowed.
pub open spec fn first_step(max_retries: u32) -> ConnectPlan {
    if max_retries == 0 {
        ConnectPlan::GiveUp
    } else {
        ConnectPlan::Try { attempt: 1 }
    }
}

/// The step after a failed attempt.  An interface that is unknown to
/// wpa_supplicant is created; any other failure is taken for a passing one and
/// leads to the next attempt after a delay, as long as one is left.
pub open spec fn step_after(
    max_retries: u32,
    retry_secs: u64,
    attempt: u32,
    unknown: bool,
) -> ConnectPlan {
    if unknown {
        ConnectPlan::CreateInterface
    } else if attempt < max_retries {
        ConnectPlan::WaitThenTry { secs: retry_secs, attempt: (attempt + 1) as u32 }
    } else {
        ConnectPlan::GiveUp
    }
}

/// The message where no attempt is allowed.
pub open spec fn no_attempt_message(max_retries: u32) -> Seq<char> {
    "wpa_supplicant did not respond after "@ + text::decimal(max_retries as nat) + " attempts"@
}

/// The first step in order to obtain the interface.
pub fn connect_start(cfg: &Config) -> (step: ConnectStep)
    ensures
        step.plan() == first_step(cfg.p2p.connect_retries),
        step matches ConnectStep::GiveUp { message } ==> message@ == no_attempt_message(
            cfg.p2p.connect_retries,
        ),
{
    if cfg.p2p.connect_retries == 0 {
        let mut message = "wpa_supplicant did not respond after ".to_owned();
        text::push_decimal(&mut message, cfg.p2p.connect_retries as u64);
        message.append(" attempts");
        ConnectStep::GiveUp { message }
    } else {
        ConnectStep::Try { attempt: 1 }
    }
}

/// The step after the attempt of number `attempt` failed.
pub fn connect_failed(cfg: &Config, attempt: u32, failure: ConnectFailure) -> (step: ConnectStep)
    ensures
        step.plan() == step_after(
            cfg.p2p.connect_retries,
            cfg.p2p.connect_retry_secs,
            attempt,
            unknown_interface(failure),
        ),
        step matches ConnectStep::GiveUp { message } ==> message@ == give_up_message(
            cfg.wifi_interface@,
            attempt,
            cfg.p2p.connect_retries,
            failure,
        ),
{
    let max = cfg.p2p.connect_retries;
    match &failure {
        ConnectFailure::Lookup(e) => {
            if is_unknown_interface(e.as_str()) {
                return ConnectStep::CreateInterface;
            }
        },
        ConnectFailure::Unreachable => {},
    }
    if attempt < max {
        return ConnectStep::WaitThenTry {
            secs: cfg.p2p.connect_retry_secs,
            attempt: attempt + 1,
        };
    }
    let message: String = match &failure {
        ConnectFailure::Unreachable =>
            "creating WpaSupplicant proxy (fi.w1.wpa_supplicant1)".to_owned(),
        ConnectFailure::Lookup(_) => {
            let mut m = "GetInterface('".to_owned();
            m.append(cfg.wifi_interface.as_str());
            m.append("') failed (attempt ");
            text::push_decimal(&mut m, attempt as u64);
            m.append("/");
            text::push_decimal(&mut m, max as u64);
            m.append(")");
            m
        },
    };
    ConnectStep::GiveUp { message }
}

/// The number of attempts made from a step on, where these attempts fail one
/// after the other; each failure tells whether the interface is unknown.
pub open spec fn attempts_made(
    max_retries: u32,
    retry_secs: u64,
    step: ConnectPlan,
    failures: Seq<bool>,
) -> nat
    decreases failures.len(),
{
    match step {
        ConnectPlan::Try { attempt } | ConnectPlan::WaitThenTry { attempt, .. } => if failures.len()
            == 0 {
            1
        } else {
            1 + attempts_made(
                max_retries,
                retry_secs,
                step_after(max_retries, retry_secs, attempt, failures[0]),
                failures.drop_first(),
            )
        },
        _ => 0,
    }
}

/// From attempt number `attempt` on, at most the remaining ones are made.
proof fn lemma_attempts_from(
    max_retries: u32,
    retry_secs: u64,
    step: ConnectPlan,
    attempt: u32,
    failures: Seq<bool>,
)
    requires
        step == (ConnectPlan::Try { attempt }) || step == (ConnectPlan::WaitThenTry {
            secs: retry_secs,
            attempt,
        }),
        1 <= attempt <= max_retries,
    ensures
        attempts_made(max_retries, retry_secs, step, failures) <= max_retries - attempt + 1,
        (forall|i: int| 0 <= i < failures.len() ==> !failures[i]) && failures.len() >= max_retries
            - attempt ==> attempts_made(max_retries, retry_secs, step, failures) == max_retries
            - attempt + 1,
    decreases failures.len(),
{
    reveal_with_fuel(attempts_made, 2);
    if failures.len() > 0 && !failures[0] && attempt < max_retries {
        let next = step_after(max_retries, retry_secs, attempt, failures[0]);
        let rest = failures.drop_first();
        lemma_attempts_from(max_retries, retry_secs, next, (attempt + 1) as u32, rest);
        if forall|i: int| 0 <= i < failures.len() ==> !failures[i] {
            assert forall|i: int| 0 <= i < rest.len() implies !rest[i] by {
                assert(rest[i] == failures[i + 1]);
            }
        }
    }
}

/// There are never more attempts than configured, and all of them are made
/// where each fails in a passing way.
pub proof fn law_attempts_are_bounded(max_retries: u32, retry_secs: u64, failures: Seq<bool>)
    ensures
        attempts_made(max_retries, retry_secs, first_step(max_retries), failures) <= max_retries,
        (forall|i: int| 0 <= i < failures.len() ==> !failures[i]) && failures.len() >= max_retries
            ==> attempts_made(max_retries, retry_secs, first_step(max_retries), failures)
            == max_retries,
{
    if max_retries > 0 {
        lemma_attempts_from(max_retries, retry_secs, first_step(max_retries), 1, failures);
    }
}

// ---------------------------------------------------------------------------
// Probing the interface
// ---------------------------------------------------------------------------

/// Whether a list of capability names holds P2P.
pub open spec fn lists_p2p(keys: Seq<String>) -> bool {
    text::texts(keys).contains("P2P"@) || text::texts(keys).contains("p2p"@)
}

/// Whether the capabilities of an interface list P2P.
pub fn has_p2p_capability(keys: &Vec<String>) -> (r: bool)
    ensures
        r == lists_p2p(keys@),
{
    let ghost names = text::texts(keys@);
    for i in 0..keys.len()
        invariant
            names == text::texts(keys@),
            forall|j: int| 0 <= j < i ==> #[trigger] names[j] != "P2P"@ && names[j] != "p2p"@,
    {
        assert(names[i as int] == keys@[i as int]@);
        if text::same(keys[i].as_str(), "P2P") || text::same(keys[i].as_str(), "p2p") {
            return true;
        }
    }
    false
}

/// What reading the configuration of the P2P device tells of it.
pub enum P2pProbe {
    /// The P2P device is accessible.
    Accessible,
    /// The interface exposes no P2P device.
    NotExposed,
    /// Reading failed for another reason; P2P may work nevertheless.
    Unexpected,
}

/// Whether an error text says that a D-Bus interface is not exposed.
pub open spec fn says_not_exposed(error: Seq<char>) -> bool {
    ||| text::occurs(error, "UnknownInterface"@)
    ||| text::occurs(error, "NoSuchInterface"@)
    ||| text::occurs(error, "org.freedesktop.DBus.Error.UnknownInterface"@)
}

/// Judge the outcome of reading the configuration of the P2P device, of which
/// `error` is the error text where it failed.
pub fn judge_p2p_probe(error: Option<&str>) -> (r: P2pProbe)
    ensures
        r == match error {
            None => P2pProbe::Accessible,
            Some(e) => if says_not_exposed(e@) {
                P2pProbe::NotExposed
            } else {
                P2pProbe::Unexpected
            },
        },
{
    match error {
        None => P2pProbe::Accessible,
        Some(e) => if text::contains(e, "UnknownInterface") || text::contains(e, "NoSuchInterface")
            || text::contains(e, "org.freedesktop.DBus.Error.UnknownInterface") {
            P2pProbe::NotExposed
        } else {
            P2pProbe::Unexpected
        },
    }
}

// ---------------------------------------------------------------------------
// Preparing the device
// ---------------------------------------------------------------------------

/// The bytes of the WFD information elements that the configuration gives.
pub fn wfd_ies(cfg: &Config) -> (r: Result<Vec<u8>, HexError>)
    ensures
        match r {
            Ok(v) => p2p::hex_decoded(cfg.p2p.wfd_subelems@) == Ok::<Seq<u8>, p2p::HexProblem>(v@),
            Err(e) => p2p::hex_decoded(cfg.p2p.wfd_subelems@) == Err::<Seq<u8>, p2p::HexProblem>(
                e@,
            ),
        },
{
    p2p::hex_to_bytes(cfg.p2p.wfd_subelems.as_str())
}

/// How far setting the WFD information elements has come.
pub enum WfdEvent {
    /// They are to be set.
    Start,
    /// D-Bus has set them.
    SetOnDbus,
    /// D-Bus could not set them.
    DbusFailed,
    /// `wpa_cli` has set them.
    SetWithWpaCli,
    /// `wpa_cli` could not set them either.
    WpaCliFailed,
}

/// What to do next about the WFD information elements.
pub enum WfdAction {
    /// Set these bytes through D-Bus.
    SetByDbus { ies: Vec<u8> },
    /// Set them with `wpa_cli`.
    SetByWpaCli,
    /// Go on, with or without them.
    Done,
}

/// Decide what to do next about the WFD information elements: D-Bus comes
/// first, `wpa_cli` only where that failed, and no failure is fatal.  A
/// configuration that is no hex string sets none.
pub fn wfd_step(cfg: &Config, event: WfdEvent) -> (a: WfdAction)
    ensures
        match event {
            WfdEvent::Start => match p2p::hex_decoded(cfg.p2p.wfd_subelems@) {
                Ok(bytes) => a matches WfdAction::SetByDbus { ies } && ies@ == bytes,
                Err(_) => a is Done,
            },
            WfdEvent::DbusFailed => a is SetByWpaCli,
            _ => a is Done,
        },
{
    match event {
        WfdEvent::Start => match wfd_ies(cfg) {
            Ok(ies) => WfdAction::SetByDbus { ies },
            Err(_) => WfdAction::Done,
        },
        WfdEvent::DbusFailed => WfdAction::SetByWpaCli,
        _ => WfdAction::Done,
    }
}

/// The two `wpa_cli` calls that set a WFD subelement where D-Bus cannot.
pub struct WpaCliPlan {
    /// Arguments that enable Wi-Fi Display.
    pub enable: Vec<String>,
    /// Arguments that set the subelement.
    pub set: Vec<String>,
}

/// The arguments that enable Wi-Fi Display on `interface`.
pub open spec fn enable_args(interface: Seq<char>) -> Seq<Seq<char>> {
    seq!["-i"@, interface, "set"@, "wifi_display"@, "1"@]
}

/// The arguments that set subelement `id` on `interface`.
pub open spec fn set_args(interface: Seq<char>, id: u8, payload: Seq<u8>) -> Seq<Seq<char>> {
    seq![
        "-i"@,
        interface,
        "wfd_subelem_set"@,
        text::decimal(id as nat),
        p2p::hex_text(payload),
    ]
}

/// Plan the `wpa_cli` calls for the bytes of a WFD information element.
pub fn wpa_cli_plan(cfg: &Config, ie_bytes: &[u8]) -> (r: Result<WpaCliPlan, WfdError>)
    ensures
        match r {
            Ok(plan) => {
                &&& ie_bytes@.len() >= 2 + ie_bytes@[1]
                &&& ie_bytes@.len() >= 2
                &&& text::texts(plan.enable@) == enable_args(cfg.wifi_interface@)
                &&& text::texts(plan.set@) == set_args(
                    cfg.wifi_interface@,
                    ie_bytes@[0],
                    ie_bytes@.subrange(2, 2 + ie_bytes@[1]),
                )
            },
            Err(WfdError::TooShort { len }) => len == ie_bytes@.len() && len < 2,
            Err(WfdError::LengthMismatch { declared, available }) => {
                &&& ie_bytes@.len() >= 2
                &&& declared == ie_bytes@[1]
                &&& available == ie_bytes@.len() - 2
                &&& available < declared
            },
        },
{
    let (id, payload) = match p2p::parse_wfd_subelement(ie_bytes) {
        Ok(p) => p,
        Err(e) => {
            return Err(e);
        },
    };
    let interface = cfg.wifi_interface.as_str();
    let mut enable: Vec<String> = Vec::new();
    enable.push("-i".to_owned());
    enable.push(interface.to_owned());
    enable.push("set".to_owned());
    enable.push("wifi_display".to_owned());
    enable.push("1".to_owned());
    assert(text::texts(enable@) =~= enable_args(cfg.wifi_interface@));
    let mut id_text = String::new();
    text::push_decimal(&mut id_text, id as u64);
    assert(id_text@ =~= text::decimal(id as nat));
    let mut set: Vec<String> = Vec::new();
    set.push("-i".to_owned());
    set.push(interface.to_owned());
    set.push("wfd_subelem_set".to_owned());
    set.push(id_text);
    set.push(payload);
    assert(text::texts(set@) =~= set_args(
        cfg.wifi_interface@,
        ie_bytes@[0],
        ie_bytes@.subrange(2, 2 + ie_bytes@[1]),
    ));
    Ok(WpaCliPlan { enable, set })
}

/// The entries of the `P2PDeviceConfig` property.
pub struct DeviceConfig {
    /// `DeviceName`: the name shown in Smart View.
    pub device_name: String,
    /// `PrimaryDeviceType`: eight bytes.
    pub primary_device_type: [u8; 8],
    /// `NoGroupIface`.
    pub no_group_iface: bool,
}

/// The entries of `P2PDeviceConfig` that the configuration gives.
pub fn device_config(cfg: &Config) -> (r: Result<DeviceConfig, WpsError>)
    ensures
        match r {
            Ok(d) => {
                &&& d.device_name@ == cfg.device_name@
                &&& p2p::dev_type_encoded(cfg.p2p.wps_dev_type@) == Ok::<Seq<u8>, p2p::WpsProblem>(
                    d.primary_device_type@,
                )
                &&& d.no_group_iface == cfg.p2p.no_group_iface
            },
            Err(e) => p2p::dev_type_encoded(cfg.p2p.wps_dev_type@) == Err::<
                Seq<u8>,
                p2p::WpsProblem,
            >(e@),
        },
{
    match p2p::wps_dev_type_to_bytes(cfg.p2p.wps_dev_type.as_str()) {
        Ok(primary_device_type) => Ok(
            DeviceConfig {
                device_name: cfg.device_name.clone(),
                primary_device_type,
                no_group_iface: cfg.p2p.no_group_iface,
            },
        ),
        Err(e) => Err(e),
    }
}

/// The listen timeout handed to wpa_supplicant, which takes an `i32`: the one
/// configured, or the largest one there is.
pub fn listen_timeout(listen_secs: u32) -> (r: i32)
    ensures
        r == if listen_secs <= i32::MAX {
            listen_secs as int
        } else {
            i32::MAX as int
        },
{
    if listen_secs <= i32::MAX as u32 {
        listen_secs as i32
    } else {
        i32::MAX
    }
}

// ---------------------------------------------------------------------------
// Keeping the device discoverable
// ---------------------------------------------------------------------------

/// What the manager does next.
#[derive(Clone, Copy, PartialEq, Eq, Structural)]
pub enum Phase {
    /// Build the proxy for the P2P device.
    BuildProxy,
    /// Set the WFD information elements.
    SetWfdIes,
    /// Write `P2PDeviceConfig`.
    SetDeviceConfig,
    /// Start discovery.
    StartDiscovery,
    /// Refresh the listen window.
    Refresh,
}

/// What follows the outcome of a phase.
pub struct RunStep {
    /// Seconds to wait before the next phase.
    pub wait_secs: Option<u64>,
    /// New state of the P2P subsystem, where it changes.
    pub p2p_state: Option<u8>,
    /// The next phase.
    pub next: Phase,
}

/// What follows the outcome of a phase: preparation starts over after the retry
/// delay where a step of it fails, except that WFD information elements may be
/// missing; a listen window is refreshed for as long as that succeeds.
pub open spec fn followed_by(
    phase: Phase,
    succeeded: bool,
    retry_secs: u64,
    listen_secs: u32,
) -> RunStep {
    let retry = RunStep { wait_secs: Some(retry_secs), p2p_state: None, next: Phase::BuildProxy };
    match phase {
        Phase::BuildProxy => if succeeded {
            RunStep { wait_secs: None, p2p_state: None, next: Phase::SetWfdIes }
        } else {
            retry
        },
        Phase::SetWfdIes => RunStep {
            wait_secs: None,
            p2p_state: None,
            next: Phase::SetDeviceConfig,
        },
        Phase::SetDeviceConfig => if succeeded {
            RunStep { wait_secs: None, p2p_state: None, next: Phase::StartDiscovery }
        } else {
            retry
        },
        Phase::StartDiscovery => if succeeded {
            RunStep {
                wait_secs: Some(listen_secs as u64),
                p2p_state: Some(health::STATE_P2P_DISCOVERING),
                next: Phase::Refresh,
            }
        } else {
            retry
        },
        Phase::Refresh => if succeeded {
            RunStep { wait_secs: Some(listen_secs as u64), p2p_state: None, next: Phase::Refresh }
        } else {
            RunStep {
                wait_secs: None,
                p2p_state: Some(health::STATE_IDLE),
                next: Phase::BuildProxy,
            }
        },
    }
}

/// Decide what follows the outcome of a phase.
pub fn run_step(cfg: &Config, phase: Phase, succeeded: bool) -> (step: RunStep)
    ensures
        step == followed_by(phase, succeeded, cfg.p2p.connect_retry_secs, cfg.p2p.listen_secs),
{
    match phase {
        Phase::BuildProxy => if succeeded {
            RunStep { wait_secs: None, p2p_state: None, next: Phase::SetWfdIes }
        } else {
            retry_step(cfg)
        },
        Phase::SetWfdIes => RunStep {
            wait_secs: None,
            p2p_state: None,
            next: Phase::SetDeviceConfig,
        },
        Phase::SetDeviceConfig => if succeeded {
            RunStep { wait_secs: None, p2p_state: None, next: Phase::StartDiscovery }
        } else {
            retry_step(cfg)
        },
        Phase::StartDiscovery => if succeeded {
            RunStep {
                wait_secs: Some(cfg.p2p.listen_secs as u64),
                p2p_state: Some(health::STATE_P2P_DISCOVERING),
                next: Phase::Refresh,
            }
        } else {
            retry_step(cfg)
        },
        Phase::Refresh => if succeeded {
            RunStep {
                wait_secs: Some(cfg.p2p.listen_secs as u64),
                p2p_state: None,
                next: Phase::Refresh,
            }
        } else {
            RunStep {
                wait_secs: None,
                p2p_state: Some(health::STATE_IDLE),
                next: Phase::BuildProxy,
            }
        },
    }
}

/// Start over after the retry delay.
fn retry_step(cfg: &Config) -> (step: RunStep)
    ensures
        step == (RunStep {
            wait_secs: Some(cfg.p2p.connect_retry_secs),
            p2p_state: None,
            next: Phase::BuildProxy,
        }),
{
    RunStep {
        wait_secs: Some(cfg.p2p.connect_retry_secs),
        p2p_state: None,
        next: Phase::BuildProxy,
    }
}

/// The state of the P2P subsystem before a phase.
pub open spec fn state_before(phase: Phase) -> u8 {
    if phase == Phase::Refresh {
        health::STATE_P2P_DISCOVERING
    } else {
        health::STATE_IDLE
    }
}

/// Whatever the outcome of a phase, the subsystem reports discovery exactly
/// while a listen window is being kept open.
pub proof fn law_state_follows_phase(
    phase: Phase,
    succeeded: bool,
    retry_secs: u64,
    listen_secs: u32,
)
    ensures
        ({
            let step = followed_by(phase, succeeded, retry_secs, listen_secs);
            let state = match step.p2p_state {
                Some(s) => s,
                None => state_before(phase),
            };
            state == state_before(step.next)
        }),
{
}

// ---------------------------------------------------------------------------
// Laws
// ---------------------------------------------------------------------------

/// Whichever phase comes before a refresh, the wait before it is the listen
/// window: no longer than the one handed to wpa_supplicant, where that can
/// take it.
pub proof fn law_listen_window_is_kept_open(
    cfg: &Config,
    phase: Phase,
    succeeded: bool,
    step: RunStep,
    timeout: i32,
)
    requires
        call_ensures(run_step, (cfg, phase, succeeded), step),
        call_ensures(listen_timeout, (cfg.p2p.listen_secs,), timeout),
        step.next == Phase::Refresh,
    ensures
        step.wait_secs is Some,
        step.wait_secs->0 == cfg.p2p.listen_secs,
        cfg.p2p.listen_secs <= i32::MAX ==> step.wait_secs->0 == timeout,
{
}

/// Preparation goes through its steps in their order, without a wait, as long
/// as they succeed; a failure starts it over after the retry delay, except
/// that missing WFD information elements are passed over and a failed refresh
/// needs no delay.
pub proof fn law_preparation_order(cfg: &Config, phase: Phase, succeeded: bool, step: RunStep)
    requires
        call_ensures(run_step, (cfg, phase, succeeded), step),
    ensures
        phase == Phase::BuildProxy && succeeded ==> step.next == Phase::SetWfdIes,
        phase == Phase::SetWfdIes ==> step.next == Phase::SetDeviceConfig,
        phase == Phase::SetDeviceConfig && succeeded ==> step.next == Phase::StartDiscovery,
        phase == Phase::StartDiscovery && succeeded ==> step.next == Phase::Refresh,
        phase == Phase::Refresh && succeeded ==> step.next == Phase::Refresh,
        !succeeded && phase != Phase::SetWfdIes ==> step.next == Phase::BuildProxy,
        succeeded && step.next != Phase::Refresh ==> step.wait_secs is None,
        phase == Phase::SetWfdIes || phase == Phase::Refresh && !succeeded ==> step.wait_secs
            is None,
        !succeeded && phase != Phase::SetWfdIes && phase != Phase::Refresh ==> step.wait_secs
            == Some(cfg.p2p.connect_retry_secs),
{
}

/// The subsystem reports discovery exactly from the start of it to a failed
/// refresh.
pub proof fn law_reported_state(cfg: &Config, phase: Phase, succeeded: bool, step: RunStep)
    requires
        call_ensures(run_step, (cfg, phase, succeeded), step),
    ensures
        step.p2p_state == Some(1u8) <==> phase == Phase::StartDiscovery && succeeded,
        step.p2p_state == Some(0u8) <==> phase == Phase::Refresh && !succeeded,
        step.p2p_state is Some ==> step.p2p_state->0 <= 1,
{
}

/// wpa_supplicant is asked for the longest window it can take, up to the one
/// configured.
pub proof fn law_listen_timeout(a: u32, b: u32, x: i32, y: i32)
    requires
        call_ensures(listen_timeout, (a,), x),
        call_ensures(listen_timeout, (b,), y),
    ensures
        0 <= x <= a,
        x < a ==> x == 2_147_483_647,
        a <= b ==> x <= y,
{
}

/// The first attempt is made where one is allowed, and none otherwise.
pub proof fn law_connect_start(cfg: &Config, step: ConnectStep)
    requires
        call_ensures(connect_start, (cfg,), step),
    ensures
        cfg.p2p.connect_retries > 0 ==> step == (ConnectStep::Try { attempt: 1 }),
        cfg.p2p.connect_retries == 0 ==> step is GiveUp && step->GiveUp_message@
            == "wpa_supplicant did not respond after 0 attempts"@,
{
    if cfg.p2p.connect_retries == 0 {
        reveal_strlit("wpa_supplicant did not respond after 0 attempts");
        reveal_strlit("wpa_supplicant did not respond after ");
        reveal_strlit(" attempts");
        assert(text::decimal(0) =~= seq!['0']);
        assert("wpa_supplicant did not respond after 0 attempts"@ =~= no_attempt_message(0));
    }
}

/// After a failed attempt an unknown interface is created, whichever attempt
/// it was; else the next attempt follows the configured delay, while one is
/// left; and else the last failure is reported.
pub proof fn law_connect_failed(
    cfg: &Config,
    attempt: u32,
    failure: ConnectFailure,
    step: ConnectStep,
)
    requires
        call_ensures(connect_failed, (cfg, attempt, failure), step),
    ensures
        ({
            let unknown = failure is Lookup && (text::occurs(
                failure->Lookup_0@,
                "InterfaceUnknown"@,
            ) || text::occurs(failure->Lookup_0@, "UnknownObject"@) || text::occurs(
                failure->Lookup_0@,
                "NoSuchInterface"@,
            ));
            &&& step is CreateInterface <==> unknown
            &&& step is WaitThenTry <==> !unknown && attempt < cfg.p2p.connect_retries
            &&& step matches ConnectStep::WaitThenTry { secs, attempt: next } ==> secs
                == cfg.p2p.connect_retry_secs && next == attempt + 1
            &&& step is GiveUp <==> !unknown && attempt >= cfg.p2p.connect_retries
            &&& step is GiveUp && failure is Unreachable ==> step->GiveUp_message@
                == "creating WpaSupplicant proxy (fi.w1.wpa_supplicant1)"@
            &&& step is GiveUp && failure is Lookup ==> exists|a: Seq<char>, b: Seq<char>|
                {
                    &&& text::unsigned(a, u32::MAX as nat) == Some(attempt as nat)
                    &&& text::unsigned(b, u32::MAX as nat) == Some(cfg.p2p.connect_retries as nat)
                    &&& step->GiveUp_message@ == #[trigger] ("GetInterface('"@
                        + cfg.wifi_interface@ + "') failed (attempt "@ + a + "/"@ + b + ")"@)
                }
        }),
{
    if step is GiveUp && failure is Lookup {
        let a = text::decimal(attempt as nat);
        let b = text::decimal(cfg.p2p.connect_retries as nat);
        text::law_decimal_round_trip(attempt as nat, u32::MAX as nat);
        text::law_decimal_round_trip(cfg.p2p.connect_retries as nat, u32::MAX as nat);
        assert(step->GiveUp_message@ == "GetInterface('"@ + cfg.wifi_interface@
            + "') failed (attempt "@ + a + "/"@ + b + ")"@);
    }
}

/// An interface can do P2P exactly where a capability has that name, in upper
/// or in lower case.
pub proof fn law_has_p2p_capability(keys: &Vec<String>, r: bool)
    requires
        call_ensures(has_p2p_capability, (keys,), r),
    ensures
        r <==> exists|i: int|
            0 <= i < keys@.len() && (#[trigger] keys@[i]@ == "P2P"@ || keys@[i]@ == "p2p"@),
{
    let names = text::texts(keys@);
    if exists|i: int|
        0 <= i < keys@.len() && (#[trigger] keys@[i]@ == "P2P"@ || keys@[i]@ == "p2p"@) {
        let i = choose|i: int|
            0 <= i < keys@.len() && (#[trigger] keys@[i]@ == "P2P"@ || keys@[i]@ == "p2p"@);
        assert(names[i] == keys@[i]@);
    }
    if names.contains("P2P"@) {
        let i = choose|i: int| 0 <= i < names.len() && names[i] == "P2P"@;
        assert(keys@[i]@ == "P2P"@);
    } else if names.contains("p2p"@) {
        let i = choose|i: int| 0 <= i < names.len() && names[i] == "p2p"@;
        assert(keys@[i]@ == "p2p"@);
    }
}

/// The P2P device is accessible exactly where there was no error, and is taken
/// for missing exactly where the error says so.
pub proof fn law_judge_p2p_probe(error: Option<&str>, r: P2pProbe)
    requires
        call_ensures(judge_p2p_probe, (error,), r),
    ensures
        r is Accessible <==> error is None,
        r is NotExposed <==> error is Some && (text::occurs(error->0@, "UnknownInterface"@)
            || text::occurs(error->0@, "NoSuchInterface"@)),
{
    if error is Some && text::occurs(
        error->0@,
        "org.freedesktop.DBus.Error.UnknownInterface"@,
    ) {
        let e = error->0@;
        let long = "org.freedesktop.DBus.Error.UnknownInterface"@;
        reveal_strlit("org.freedesktop.DBus.Error.UnknownInterface");
        reveal_strlit("UnknownInterface");
        let i = choose|i: int| text::occurs_at(e, long, i);
        text::law_occurs_at(e, long, i);
        assert(e.subrange(i + 27, i + 43) =~= "UnknownInterface"@) by {
            assert forall|k: int| 0 <= k < 16 implies e[i + 27 + k] == #[trigger] "UnknownInterface"@[
                k
            ] by {
                assert(e[i + (27 + k)] == long[27 + k]);
            }
        }
        assert(text::occurs_at(e, "UnknownInterface"@, i + 27));
    }
}

/// D-Bus comes first and is given the bytes that the configuration spells,
/// `wpa_cli` comes only where D-Bus failed, and nothing comes after that.
pub proof fn law_wfd_step(cfg: &Config, event: WfdEvent, a: WfdAction)
    requires
        call_ensures(wfd_step, (cfg, event), a),
    ensures
        a is SetByDbus <==> event is Start && p2p::hex_decoded(cfg.p2p.wfd_subelems@) is Ok,
        a matches WfdAction::SetByDbus { ies } ==> {
            let hex = cfg.p2p.wfd_subelems@;
            &&& 2 * ies@.len() == hex.len()
            &&& forall|k: int|
                0 <= k < ies@.len() ==> #[trigger] ies@[k] as int == 16 * p2p::digit_value(
                    hex[2 * k],
                ) + p2p::digit_value(hex[2 * k + 1])
        },
        a is SetByWpaCli <==> event is DbusFailed,
        a is Done <==> !(a is SetByDbus) && !(a is SetByWpaCli),
        crate::config::is_hex_string(cfg.p2p.wfd_subelems@) && event is Start ==> a is SetByDbus,
{
    if crate::config::is_hex_string(cfg.p2p.wfd_subelems@) {
        assert forall|i: int| 0 <= i < cfg.p2p.wfd_subelems@.len() implies crate::config::is_hex(
            #[trigger] cfg.p2p.wfd_subelems@[i],
        ) by {}
    }
    p2p::law_hex_strings_decode(cfg.p2p.wfd_subelems@);
}

/// The `wpa_cli` calls name the interface, enable Wi-Fi Display, and set the
/// subelement's number and its payload, which decodes to the payload's bytes.
pub proof fn law_wpa_cli_plan(cfg: &Config, ie_bytes: &[u8], r: Result<WpaCliPlan, WfdError>)
    requires
        call_ensures(wpa_cli_plan, (cfg, ie_bytes), r),
    ensures
        r is Ok <==> ie_bytes@.len() >= 2 && ie_bytes@.len() >= 2 + ie_bytes@[1],
        (r is Err && r->Err_0 is TooShort) <==> ie_bytes@.len() < 2,
        r matches Err(WfdError::TooShort { len }) ==> len == ie_bytes@.len(),
        r matches Err(WfdError::LengthMismatch { declared, available }) ==> declared
            == ie_bytes@[1] && available == ie_bytes@.len() - 2,
        r matches Ok(plan) ==> {
            &&& plan.enable@.len() == 5
            &&& plan.enable@[0]@ == "-i"@
            &&& plan.enable@[1]@ == cfg.wifi_interface@
            &&& plan.enable@[2]@ == "set"@
            &&& plan.enable@[3]@ == "wifi_display"@
            &&& plan.enable@[4]@ == "1"@
            &&& plan.set@.len() == 5
            &&& plan.set@[0]@ == "-i"@
            &&& plan.set@[1]@ == cfg.wifi_interface@
            &&& plan.set@[2]@ == "wfd_subelem_set"@
            &&& text::unsigned(plan.set@[3]@, 255) == Some(ie_bytes@[0] as nat)
            &&& p2p::hex_decoded(plan.set@[4]@) == Ok::<Seq<u8>, p2p::HexProblem>(
                ie_bytes@.subrange(2, 2 + ie_bytes@[1]),
            )
        },
{
    if let Ok(plan) = r {
        let enable = text::texts(plan.enable@);
        let set = text::texts(plan.set@);
        assert(enable.len() == 5 && set.len() == 5);
        assert(enable[0] == plan.enable@[0]@ && enable[1] == plan.enable@[1]@ && enable[2]
            == plan.enable@[2]@ && enable[3] == plan.enable@[3]@ && enable[4]
            == plan.enable@[4]@);
        assert(set[0] == plan.set@[0]@ && set[1] == plan.set@[1]@ && set[2] == plan.set@[2]@
            && set[3] == plan.set@[3]@ && set[4] == plan.set@[4]@);
        text::law_decimal_round_trip(ie_bytes@[0] as nat, 255);
        p2p::law_hex_round_trip(ie_bytes@.subrange(2, 2 + ie_bytes@[1]));
    }
}

/// The device configuration holds the device's name, the eight bytes of its
/// type and the group setting; it can be made exactly where the type can be
/// encoded.
pub proof fn law_device_config(cfg: &Config, r: Result<DeviceConfig, WpsError>)
    requires
        call_ensures(device_config, (cfg,), r),
    ensures
        r is Ok <==> p2p::dev_type_encoded(cfg.p2p.wps_dev_type@) is Ok,
        r matches Err(e) ==> p2p::dev_type_encoded(cfg.p2p.wps_dev_type@) == Err::<
            Seq<u8>,
            p2p::WpsProblem,
        >(e@),
        r matches Ok(d) ==> {
            &&& d.device_name@ == cfg.device_name@
            &&& d.no_group_iface == cfg.p2p.no_group_iface
            &&& p2p::dev_type_parts(cfg.p2p.wps_dev_type@) matches Some((cat, oui, sub)) && {
                let v = d.primary_device_type@;
                &&& text::unsigned(cat, u16::MAX as nat) == Some((v[0] * 256 + v[1]) as nat)
                &&& p2p::hex_decoded(oui) == Ok::<Seq<u8>, p2p::HexProblem>(v.subrange(2, 6))
                &&& text::unsigned(sub, u16::MAX as nat) == Some((v[6] * 256 + v[7]) as nat)
            }
        },
{
    p2p::law_dev_type_layout(cfg.p2p.wps_dev_type@);
}

/// An interface is unknown exactly where the error names one of the three
/// errors that say so.
pub proof fn law_is_unknown_interface(error: &str, r: bool)
    requires
        call_ensures(is_unknown_interface, (error,), r),
    ensures
        r <==> exists|before: Seq<char>, what: Seq<char>, after: Seq<char>|
            error@ == #[trigger] (before + what + after) && (what == "InterfaceUnknown"@ || what
                == "UnknownObject"@ || what == "NoSuchInterface"@),
{
    text::law_occurs(error@, "InterfaceUnknown"@);
    text::law_occurs(error@, "UnknownObject"@);
    text::law_occurs(error@, "NoSuchInterface"@);
}

/// The information elements are the bytes that the configured digits spell, and
/// are refused as the digits are.
pub proof fn law_wfd_ies(
    cfg: &Config,
    hex: &str,
    r: Result<Vec<u8>, HexError>,
    decoded: Result<Vec<u8>, HexError>,
)
    requires
        call_ensures(wfd_ies, (cfg,), r),
        hex@ == cfg.p2p.wfd_subelems@,
        call_ensures(p2p::hex_to_bytes, (hex,), decoded),
    ensures
        r is Ok <==> decoded is Ok,
        r is Ok ==> r->Ok_0@ == decoded->Ok_0@,
        r is Err ==> r->Err_0@ == decoded->Err_0@,
{
}

} // verus!
