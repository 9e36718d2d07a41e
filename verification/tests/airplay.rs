use nicocast_v2::airplay::{supervise, uxplay_args, Supervision, UxplayEvent, RESTART_DELAY_SECS};
use nicocast_v2::config::Config;

#[test]
fn disabled_airplay_waits_for_ever() {
    let cfg = Config::default();
    assert!(matches!(supervise(&cfg, UxplayEvent::Started), Supervision::Park));
}

#[test]
fn uxplay_is_restarted() {
    let mut cfg = Config::default();
    cfg.airplay_enabled = true;
    cfg.airplay_name = "Den".to_owned();
    let expected = vec!["-n", "Den", "-vs", "autovideosink", "-as", "autoaudiosink"];
    assert_eq!(uxplay_args(&cfg), expected);
    match supervise(&cfg, UxplayEvent::Started) {
        Supervision::Spawn { args } => assert_eq!(args, expected),
        _ => panic!("not spawned"),
    }
    assert_eq!(RESTART_DELAY_SECS, 5);
    assert!(matches!(
        supervise(&cfg, UxplayEvent::Exited),
        Supervision::Wait { secs: 5 }
    ));
    assert!(matches!(
        supervise(&cfg, UxplayEvent::DelayOver),
        Supervision::Spawn { .. }
    ));
}

#[test]
fn a_missing_uxplay_is_fatal() {
    let mut cfg = Config::default();
    cfg.airplay_enabled = true;
    match supervise(&cfg, UxplayEvent::SpawnFailed) {
        Supervision::Fail { message } => assert_eq!(
            message,
            "spawning uxplay — is it installed? (apt install uxplay)"
        ),
        _ => panic!("no failure"),
    }
}
