//! Supervision of `uxplay`, which receives AirPlay streams.

use vstd::prelude::*;

use crate::config::Config;
use crate::text;

verus! {

/// Seconds between the exit of `uxplay` and its next start.
pub const RESTART_DELAY_SECS: u64 = 5;

/// What happened to `uxplay`.
pub enum UxplayEvent {
    /// The supervisor was started.
    Started,
    /// The process could not be spawned.
    SpawnFailed,
    /// The process ended, in whatever way.
    Exited,
    /// The restart delay is over.
    DelayOver,
}

/// What the supervisor does.
pub enum Supervision {
    /// AirPlay is disabled: wait without end.
    Park,
    /// Spawn `uxplay` with these arguments.
    Spawn { args: Vec<String> },
    /// Wait for this many seconds.
    Wait { secs: u64 },
    /// Give up with this message.
    Fail { message: String },
}

/// The arguments of `uxplay` for the name that it advertises.
pub open spec fn uxplay_arguments(name: Seq<char>) -> Seq<Seq<char>> {
    seq!["-n"@, name, "-vs"@, "autovideosink"@, "-as"@, "autoaudiosink"@]
}

/// The arguments of `uxplay`: the name, and the sinks that Miracast uses.
pub fn uxplay_args(cfg: &Config) -> (args: Vec<String>)
    ensures
        text::texts(args@) == uxplay_arguments(cfg.airplay_name@),
{
    let mut args: Vec<String> = Vec::new();
    args.push("-n".to_owned());
    args.push(cfg.airplay_name.clone());
    args.push("-vs".to_owned());
    args.push("autovideosink".to_owned());
    args.push("-as".to_owned());
    args.push("autoaudiosink".to_owned());
    assert(text::texts(args@) =~= uxplay_arguments(cfg.airplay_name@));
    args
}

/// Decide what follows an event.  An enabled `uxplay` is restarted for as long
/// as it can be spawned.
pub fn supervise(cfg: &Config, event: UxplayEvent) -> (step: Supervision)
    ensures
        match event {
            UxplayEvent::Started | UxplayEvent::DelayOver => match step {
                Supervision::Park => !cfg.airplay_enabled,
                Supervision::Spawn { args } => cfg.airplay_enabled && text::texts(args@)
                    == uxplay_arguments(cfg.airplay_name@),
                _ => false,
            },
            UxplayEvent::SpawnFailed => step matches Supervision::Fail { message } && message@
                == "spawning uxplay — is it installed? (apt install uxplay)"@,
            UxplayEvent::Exited => step matches Supervision::Wait { secs } && secs
                == RESTART_DELAY_SECS,
        },
{
    match event {
        UxplayEvent::Started | UxplayEvent::DelayOver => if cfg.airplay_enabled {
            Supervision::Spawn { args: uxplay_args(cfg) }
        } else {
            Supervision::Park
        },
        UxplayEvent::SpawnFailed => Supervision::Fail {
            message: "spawning uxplay — is it installed? (apt install uxplay)".to_owned(),
        },
        UxplayEvent::Exited => Supervision::Wait { secs: RESTART_DELAY_SECS },
    }
}

/// `uxplay` is started with the name that is configured and with the sinks of
/// the pipeline.
pub proof fn law_uxplay_args(cfg: &Config, args: Vec<String>)
    requires
        call_ensures(uxplay_args, (cfg,), args),
    ensures
        args@.len() == 6,
        args@[0]@ == "-n"@,
        args@[1]@ == cfg.airplay_name@,
        args@[2]@ == "-vs"@,
        args@[3]@ == "autovideosink"@,
        args@[4]@ == "-as"@,
        args@[5]@ == "autoaudiosink"@,
{
    let t = text::texts(args@);
    assert(t.len() == 6);
    assert(t[0] == args@[0]@ && t[1] == args@[1]@ && t[2] == args@[2]@ && t[3] == args@[3]@ && t[4]
        == args@[4]@ && t[5] == args@[5]@);
}

/// An enabled `uxplay` is started, and started again five seconds after each
/// exit; a disabled one is never started; and only a failed start is fatal.
pub proof fn law_supervise(cfg: &Config, event: UxplayEvent, step: Supervision)
    requires
        call_ensures(supervise, (cfg, event), step),
    ensures
        step is Spawn <==> (event is Started || event is DelayOver) && cfg.airplay_enabled,
        step is Park <==> (event is Started || event is DelayOver) && !cfg.airplay_enabled,
        step is Wait <==> event is Exited,
        step is Fail <==> event is SpawnFailed,
        step matches Supervision::Wait { secs } ==> secs == 5,
        step matches Supervision::Spawn { args } ==> args@.len() == 6 && args@[1]@
            == cfg.airplay_name@,
        step matches Supervision::Fail { message } ==> message@
            == "spawning uxplay — is it installed? (apt install uxplay)"@,
{
    if let Supervision::Spawn { args } = step {
        let t = text::texts(args@);
        assert(t.len() == 6);
        assert(t[1] == args@[1]@);
    }
}

} // verus!
