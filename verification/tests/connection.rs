use nicocast_v2::config::Config;
use nicocast_v2::connection::{
    frame, patience, Connection, Intake, Patience, Reply, MAX_MSG_BYTES,
};
use nicocast_v2::health::{STATE_IDLE, STATE_PLAYING, STATE_RTSP_CONNECTED};

/// Send a whole request and return the reply.
fn exchange(conn: &mut Connection, raw: &str, rtp_port: u16, send_m2: bool) -> Reply {
    match conn.receive(raw.as_bytes()) {
        Intake::Request(req) => {
            assert!(rtp_port < u16::MAX || !req.needs_rtcp_port());
            conn.answer(&req, rtp_port, send_m2)
        }
        _ => panic!("no request in:\n{raw}"),
    }
}

/// Verify the complete M1→M7 Miracast handshake.
#[test]
fn full_m1_to_m7_handshake() {
    let cfg = Config::default();
    let port = 7236;
    let mut conn = Connection::new();
    let mut send = |raw: &str| exchange(&mut conn, raw, cfg.rtp_port, cfg.rtsp_send_m2).response;

    // ── M1 OPTIONS ───────────────────────────────────────────────────────────
    let resp = send("OPTIONS * RTSP/1.0\r\nCSeq: 1\r\n\r\n");
    assert!(
        resp.starts_with("RTSP/1.0 200 OK"),
        "M1 OPTIONS: expected 200 OK, got:\n{resp}"
    );
    assert!(
        resp.contains("org.wfa.wfd1.0"),
        "M1 OPTIONS: Public header must include org.wfa.wfd1.0"
    );
    assert!(
        resp.contains("GET_PARAMETER"),
        "M1 OPTIONS: Public header must list GET_PARAMETER"
    );
    assert!(
        resp.contains("SETUP"),
        "M1 OPTIONS: Public header must list SETUP"
    );

    // ── M3 GET_PARAMETER ─────────────────────────────────────────────────────
    let body = "wfd_content_protection\r\nwfd_video_formats\r\nwfd_audio_codecs\r\nwfd_client_rtp_ports\r\n";
    let m3 = format!(
        "GET_PARAMETER rtsp://127.0.0.1:{port}/wfd1.0 RTSP/1.0\r\n\
         CSeq: 3\r\n\
         Content-Type: text/parameters\r\n\
         Content-Length: {}\r\n\
         \r\n\
         {body}",
        body.len()
    );
    let resp = send(&m3);
    assert!(
        resp.starts_with("RTSP/1.0 200 OK"),
        "M3 GET_PARAMETER: expected 200 OK, got:\n{resp}"
    );
    assert!(
        resp.contains("wfd_content_protection: none"),
        "M3: must advertise no HDCP (wfd_content_protection: none)"
    );
    assert!(
        resp.contains("wfd_client_rtp_ports:"),
        "M3: must include RTP port info"
    );
    assert!(
        resp.contains(&cfg.rtp_port.to_string()),
        "M3: RTP port must match config"
    );

    // ── M4 SET_PARAMETER (negotiated parameters) ─────────────────────────────
    let body4 = "wfd_video_formats: 00 00 02 02 00008400 00000000 00000000 00 0000 0000 00 none none\r\n";
    let m4 = format!(
        "SET_PARAMETER rtsp://127.0.0.1:{port}/wfd1.0 RTSP/1.0\r\n\
         CSeq: 4\r\n\
         Content-Type: text/parameters\r\n\
         Content-Length: {}\r\n\
         \r\n\
         {body4}",
        body4.len()
    );
    let resp = send(&m4);
    assert!(
        resp.starts_with("RTSP/1.0 200 OK"),
        "M4 SET_PARAMETER: expected 200 OK, got:\n{resp}"
    );

    // ── M5 SET_PARAMETER (trigger SETUP) ─────────────────────────────────────
    let body5 = "wfd_trigger_method: SETUP\r\n";
    let m5 = format!(
        "SET_PARAMETER rtsp://127.0.0.1:{port}/wfd1.0 RTSP/1.0\r\n\
         CSeq: 5\r\n\
         Content-Type: text/parameters\r\n\
         Content-Length: {}\r\n\
         \r\n\
         {body5}",
        body5.len()
    );
    let resp = send(&m5);
    assert!(
        resp.starts_with("RTSP/1.0 200 OK"),
        "M5 SET_PARAMETER (trigger): expected 200 OK, got:\n{resp}"
    );

    // ── M6 SETUP ─────────────────────────────────────────────────────────────
    let m6 = format!(
        "SETUP rtsp://127.0.0.1:{port}/wfd1.0/streamid=0 RTSP/1.0\r\n\
         CSeq: 6\r\n\
         Transport: RTP/AVP/UDP;unicast;client_port={}-{}\r\n\
         \r\n",
        cfg.rtp_port,
        cfg.rtp_port + 1
    );
    let resp = send(&m6);
    assert!(
        resp.starts_with("RTSP/1.0 200 OK"),
        "M6 SETUP: expected 200 OK, got:\n{resp}"
    );
    assert!(
        resp.contains("Session:"),
        "M6 SETUP: response must include a Session header"
    );
    assert!(
        resp.contains("Transport:"),
        "M6 SETUP: response must echo the Transport header"
    );

    // ── M7 PLAY ───────────────────────────────────────────────────────────────
    // Extract session ID from M6 response
    let session_id = resp
        .lines()
        .find(|l| l.starts_with("Session:"))
        .and_then(|l| l.split_once(':'))
        .map(|(_, v)| v.trim().split(';').next().unwrap_or("").to_owned())
        .expect("could not parse Session ID from M6 response");

    let m7 = format!(
        "PLAY rtsp://127.0.0.1:{port}/wfd1.0/streamid=0 RTSP/1.0\r\n\
         CSeq: 7\r\n\
         Session: {session_id}\r\n\
         \r\n"
    );
    let resp = send(&m7);
    assert!(
        resp.starts_with("RTSP/1.0 200 OK"),
        "M7 PLAY: expected 200 OK, got:\n{resp}"
    );

    // ── M16 GET_PARAMETER keep-alive ──────────────────────────────────────────
    let m16 = format!(
        "GET_PARAMETER rtsp://127.0.0.1:{port}/wfd1.0 RTSP/1.0\r\n\
         CSeq: 16\r\n\
         Session: {session_id}\r\n\
         Content-Length: 0\r\n\
         \r\n"
    );
    let resp = send(&m16);
    assert!(
        resp.starts_with("RTSP/1.0 200 OK"),
        "M16 keep-alive: expected 200 OK, got:\n{resp}"
    );
    // Keep-alive response body must be empty
    assert!(
        resp.contains("Content-Length: 0"),
        "M16 keep-alive: body must be empty (Content-Length: 0)"
    );

    // ── TEARDOWN ──────────────────────────────────────────────────────────────
    let teardown = format!(
        "TEARDOWN rtsp://127.0.0.1:{port}/wfd1.0/streamid=0 RTSP/1.0\r\n\
         CSeq: 17\r\n\
         Session: {session_id}\r\n\
         \r\n"
    );
    let resp = send(&teardown);
    assert!(
        resp.starts_with("RTSP/1.0 200 OK"),
        "TEARDOWN: expected 200 OK, got:\n{resp}"
    );
}

/// Verify that an unknown RTSP method returns 501 Not Implemented.
#[test]
fn unknown_method_returns_501() {
    let cfg = Config::default();
    let mut conn = Connection::new();
    let resp = exchange(
        &mut conn,
        "DESCRIBE rtsp://127.0.0.1/wfd1.0 RTSP/1.0\r\nCSeq: 1\r\n\r\n",
        cfg.rtp_port,
        cfg.rtsp_send_m2,
    )
    .response;
    assert!(
        resp.contains("501"),
        "unknown method must return 501, got:\n{resp}"
    );
}

#[test]
fn messages_are_framed_by_their_declared_length() {
    assert_eq!(frame(b""), None);
    assert_eq!(frame(b"OPTIONS * RTSP/1.0\r\nCSeq: 1\r\n"), None);
    assert_eq!(
        frame(b"OPTIONS * RTSP/1.0\r\nCSeq: 1\r\n\r\nrest"),
        Some("OPTIONS * RTSP/1.0\r\nCSeq: 1\r\n\r\n".to_owned())
    );
    let head = "A b\r\nContent-Length: 3\r\n\r\n";
    assert_eq!(frame(format!("{head}ab").as_bytes()), None);
    assert_eq!(frame(format!("{head}abcd").as_bytes()), Some(format!("{head}abc")));
    // Three bytes, two characters.
    assert_eq!(frame(format!("{head}éb").as_bytes()), Some(format!("{head}éb")));
    // The declared length ends inside a character.
    assert_eq!(frame(format!("{head}abé").as_bytes()), None);
    // Not UTF-8.
    assert_eq!(frame(b"A b\r\n\r\n\xff"), None);
    // No request line: there is no body.
    assert_eq!(
        frame(b"AB\r\nContent-Length: 3\r\n\r\nabc"),
        Some("AB\r\nContent-Length: 3\r\n\r\n".to_owned())
    );
    // A length that no buffer can reach.
    assert_eq!(
        frame(b"A b\r\nContent-Length: 18446744073709551615\r\n\r\nabc"),
        None
    );
}

#[test]
fn a_message_is_taken_once_whole_however_it_is_cut() {
    let message = "SET_PARAMETER u RTSP/1.0\r\nCSeq: 4\r\nContent-Length: 6\r\n\r\nüé\r\n";
    let bytes = message.as_bytes();
    for cut in 1..bytes.len() {
        let mut conn = Connection::new();
        assert!(matches!(conn.receive(&bytes[..cut]), Intake::More), "cut at {cut}");
        match conn.receive(&bytes[cut..]) {
            Intake::Request(req) => {
                assert_eq!(req.method, "SET_PARAMETER");
                assert_eq!(req.body, "üé");
            }
            _ => panic!("cut at {cut}"),
        }
    }
    let mut conn = Connection::new();
    for byte in &bytes[..bytes.len() - 1] {
        assert!(matches!(conn.receive(&[*byte]), Intake::More));
    }
    assert!(matches!(conn.receive(&bytes[bytes.len() - 1..]), Intake::Request(_)));
}

#[test]
fn messages_in_a_row() {
    let mut conn = Connection::new();
    for n in 0..3 {
        let raw = format!("OPTIONS * RTSP/1.0\r\nCSeq: {n}\r\n\r\n");
        let reply = exchange(&mut conn, &raw, 5, false);
        assert!(reply.response.contains(&format!("\r\nCSeq: {n}\r\n")));
    }
}

#[test]
fn a_read_of_nothing_closes() {
    let mut conn = Connection::new();
    assert!(matches!(conn.receive(b"A b\r\n"), Intake::More));
    assert!(matches!(conn.receive(b""), Intake::Closed));
}

#[test]
fn large_messages_are_refused() {
    let mut conn = Connection::new();
    let filler = vec![b'a'; MAX_MSG_BYTES];
    assert!(matches!(conn.receive(&filler), Intake::More));
    assert!(matches!(conn.receive(b"a"), Intake::TooLarge));
    let mut conn = Connection::new();
    assert!(matches!(conn.receive(&vec![b'a'; MAX_MSG_BYTES + 1]), Intake::TooLarge));
}

#[test]
fn the_largest_message_is_taken() {
    let head = "SET_PARAMETER u\r\nContent-Length: 65494\r\n\r\n";
    let mut bytes = head.as_bytes().to_vec();
    let body = 65_494;
    bytes.resize(head.len() + body, b'x');
    assert_eq!(bytes.len(), MAX_MSG_BYTES);
    let mut conn = Connection::new();
    assert!(matches!(conn.receive(&bytes), Intake::Request(_)));
}

#[test]
fn what_is_no_request_is_ignored() {
    let mut conn = Connection::new();
    assert!(matches!(conn.receive(b"HELLO\r\n\r\n"), Intake::Ignored));
    // The buffer is empty again.
    assert!(matches!(conn.receive(b"OPTIONS *\r\n\r\n"), Intake::Request(_)));
}

#[test]
fn a_missing_cseq_counts_as_zero() {
    let mut conn = Connection::new();
    let reply = exchange(&mut conn, "PLAY u\r\n\r\n", 5, false);
    assert!(reply.response.contains("\r\nCSeq: 0\r\n"));
}

#[test]
fn m2_follows_m1_where_it_is_enabled() {
    let mut conn = Connection::new();
    let m1 = "OPTIONS * RTSP/1.0\r\nCSeq: 1\r\n\r\n";
    let reply = exchange(&mut conn, m1, 5, true);
    let m2 = reply.m2.expect("M2");
    assert_eq!(m2, "GET_PARAMETER rtsp://localhost/wfd1.0 RTSP/1.0\r\nCSeq: 2\r\n\r\n");
    assert_eq!(frame(m2.as_bytes()), Some(m2));
    // The source answers M2; the sink does not answer that.
    let answer = b"RTSP/1.0 200 OK\r\nCSeq: 2\r\nContent-Length: 3\r\n\r\na:b";
    assert!(matches!(conn.receive(answer), Intake::Reply));
    // A second one is not expected.
    assert!(matches!(conn.receive(answer), Intake::Request(_)));
    assert!(exchange(&mut conn, m1, 5, false).m2.is_none());
    assert!(exchange(&mut conn, "PLAY u\r\n\r\n", 5, true).m2.is_none());
}

#[test]
fn requests_are_served_while_m2_is_unanswered() {
    let mut conn = Connection::new();
    assert!(exchange(&mut conn, "OPTIONS *\r\n\r\n", 5, true).m2.is_some());
    let reply = exchange(&mut conn, "SETUP u\r\n\r\n", 5, true);
    assert!(reply.response.starts_with("RTSP/1.0 200 OK"));
    assert!(matches!(conn.receive(b"RTSP/1.0 200 OK\r\nCSeq: 2\r\n\r\n"), Intake::Reply));
}

#[test]
fn requests_move_the_subsystem_state() {
    let mut conn = Connection::new();
    let mut state_after = |raw: &str| exchange(&mut conn, raw, 5, false).rtsp_state;
    assert_eq!(state_after("OPTIONS *\r\n\r\n"), None);
    assert_eq!(state_after("SETUP u\r\n\r\n"), Some(STATE_RTSP_CONNECTED));
    assert_eq!(state_after("GET_PARAMETER u\r\n\r\n"), None);
    assert_eq!(state_after("PLAY u\r\n\r\n"), Some(STATE_PLAYING));
    assert_eq!(state_after("TEARDOWN u\r\n\r\n"), Some(STATE_IDLE));
}

#[test]
fn the_session_lives_on_the_connection() {
    let mut conn = Connection::new();
    let setup = exchange(&mut conn, "SETUP u\r\n\r\n", 5, false).response;
    let session = setup
        .lines()
        .find_map(|l| l.strip_prefix("Session: "))
        .and_then(|v| v.split(';').next())
        .expect("a session")
        .to_owned();
    let again = exchange(&mut conn, "SETUP u\r\n\r\n", 5, false).response;
    assert!(again.contains(&format!("Session: {session};timeout=60\r\n")));
    let play = exchange(&mut conn, "PLAY u\r\n\r\n", 5, false).response;
    assert!(play.contains(&format!("Session: {session}\r\n")));
    exchange(&mut conn, "TEARDOWN u\r\n\r\n", 5, false);
    let play = exchange(&mut conn, "PLAY u\r\n\r\n", 5, false).response;
    assert!(!play.contains("Session:"));
}

#[test]
fn every_answer_is_a_message_of_its_own() {
    let requests = [
        "OPTIONS * RTSP/1.0\r\nCSeq: 1\r\n\r\n",
        "GET_PARAMETER u\r\nCSeq: a\rb\r\nContent-Length: 26\r\n\r\nwfd_video_formats\r\nwfd_x\r\n",
        "GET_PARAMETER u\r\nCSeq: 3\r\n\r\n",
        "SETUP u\r\nCSeq: 4\r\nTransport: x\ry\r\n\r\n",
        "PLAY u\r\nCSeq: 5\r\n\r\n",
        "TEARDOWN u\r\nCSeq: 6\r\n\r\n",
        "DESCRIBE u\r\nCSeq: Content-Length: 9\r\n\r\n",
    ];
    let mut conn = Connection::new();
    for raw in requests {
        let answer = exchange(&mut conn, raw, 5, false).response;
        let followed = format!("{answer}OPTIONS *\r\n\r\n");
        assert_eq!(frame(followed.as_bytes()), Some(answer));
    }
}

#[test]
fn a_quiet_connection_is_closed() {
    let mut cfg = Config::default();
    assert!(patience(&cfg, 0) == Patience::Wait { secs: 60 });
    assert!(patience(&cfg, 59) == Patience::Wait { secs: 1 });
    assert!(patience(&cfg, 60) == Patience::Close);
    assert!(patience(&cfg, u64::MAX) == Patience::Close);
    cfg.rtsp_keepalive_secs = 0;
    assert!(patience(&cfg, 0) == Patience::Close);
}

#[test]
fn only_whole_messages_show_that_the_peer_is_alive() {
    let mut conn = Connection::new();
    assert!(!conn.receive(b"OPTIONS").is_message());
    assert!(conn.receive(b" *\r\n\r\n").is_message());
    assert!(conn.receive(b"HELLO\r\n\r\n").is_message());
    assert!(!conn.receive(b"").is_message());
}
