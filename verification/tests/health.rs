use std::sync::atomic::Ordering;

use nicocast_v2::health::{
    endpoint, first_line, http_response, render_state, state_label, AppState, Endpoint,
    STATE_IDLE, STATE_P2P_DISCOVERING, STATE_PLAYING, STATE_RTSP_CONNECTED,
};

#[test]
fn default_state_is_idle() {
    let s = AppState::default();
    assert_eq!(s.p2p.load(Ordering::Relaxed), STATE_IDLE);
    assert_eq!(s.rtsp.load(Ordering::Relaxed), STATE_IDLE);
    assert_eq!(s.video.load(Ordering::Relaxed), STATE_IDLE);
}

#[test]
fn to_json_reflects_state() {
    let s = AppState::default();
    s.p2p.store(STATE_P2P_DISCOVERING, Ordering::Relaxed);
    s.rtsp.store(STATE_RTSP_CONNECTED, Ordering::Relaxed);
    s.video.store(STATE_PLAYING, Ordering::Relaxed);
    let json = s.to_json();
    assert!(json.contains(r#""p2p":1"#));
    assert!(json.contains(r#""p2p_label":"discovering""#));
    assert!(json.contains(r#""rtsp":2"#));
    assert!(json.contains(r#""rtsp_label":"connected""#));
    assert!(json.contains(r#""video":3"#));
    assert!(json.contains(r#""video_label":"playing""#));
}

#[test]
fn labels_of_all_codes() {
    assert_eq!(state_label(0), "idle");
    assert_eq!(state_label(1), "discovering");
    assert_eq!(state_label(2), "connected");
    assert_eq!(state_label(3), "playing");
    assert_eq!(state_label(4), "unknown");
    assert_eq!(state_label(255), "unknown");
}

#[test]
fn documented_report() {
    assert_eq!(
        render_state(1, 0, 0),
        r#"{"p2p":1,"p2p_label":"discovering","rtsp":0,"rtsp_label":"idle","video":0,"video_label":"idle"}"#
    );
}

#[test]
fn health_request_gets_the_report() {
    let s = AppState::default();
    let mut buf = [0u8; 512];
    let request = b"GET /health HTTP/1.1\r\nHost: x\r\n\r\n";
    buf[..request.len()].copy_from_slice(request);
    let body = s.to_json();
    assert_eq!(body.len(), 88);
    assert_eq!(
        s.respond(&buf),
        format!(
            "HTTP/1.1 200 OK\r\nContent-Type: application/json\r\nContent-Length: 88\r\n\
             Connection: close\r\n\r\n{body}"
        )
    );
}

#[test]
fn other_requests_are_not_found() {
    let not_found = "HTTP/1.1 404 Not Found\r\nContent-Length: 0\r\nConnection: close\r\n\r\n";
    let s = AppState::default();
    assert_eq!(s.respond(b"GET / HTTP/1.1\r\n\r\n"), not_found);
    assert_eq!(s.respond(b"POST /health HTTP/1.1\r\n\r\n"), not_found);
    assert_eq!(s.respond(b""), not_found);
    // Not UTF-8.
    assert_eq!(s.respond(b"GET /health \xff\r\n"), not_found);
    assert_eq!(http_response("get /health", "{}"), not_found);
}

#[test]
fn first_line_is_trimmed() {
    assert_eq!(first_line(b"  GET /healthz \r\nHost: x\r\n"), "GET /healthz");
    assert_eq!(first_line(b""), "");
    assert_eq!(first_line(b"\xff\xfe"), "");
    assert!(http_response("GET /healthz", "{}").starts_with("HTTP/1.1 200 OK\r\n"));
}

#[test]
fn each_subsystem_is_shown_under_its_name() {
    let s = AppState::default();
    s.p2p.store(5, Ordering::Relaxed);
    s.rtsp.store(6, Ordering::Relaxed);
    s.video.store(7, Ordering::Relaxed);
    assert_eq!(s.to_json(), render_state(5, 6, 7));
    assert_eq!(
        s.respond(b"GET /health"),
        http_response("GET /health", &render_state(5, 6, 7))
    );
}

#[test]
fn a_port_of_zero_disables_the_endpoint() {
    assert!(matches!(endpoint(0), Endpoint::Disabled));
    match endpoint(8080) {
        Endpoint::Listen { addr } => assert_eq!(addr, "0.0.0.0:8080"),
        Endpoint::Disabled => panic!("disabled"),
    }
}
