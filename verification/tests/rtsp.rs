use nicocast_v2::rtsp::{
    dispatch, handle_get_parameter, handle_options, handle_play, handle_set_parameter,
    handle_setup, handle_teardown, rand_session_id, rtsp_response, session_id_from,
    setup_with_id, trigger_methods, RtspRequest,
};

/// The request that `raw` spells.
fn request(raw: &str) -> RtspRequest {
    RtspRequest::parse(raw).expect("a request")
}

/// The answer to `raw` within a session.
fn answer(raw: &str, port: u16, session: &mut Option<String>) -> String {
    let req = request(raw);
    assert!(port < u16::MAX || !req.needs_rtcp_port());
    dispatch(&req, req.header("CSeq").unwrap_or("0"), port, session)
}

#[test]
fn parse_options_request() {
    let raw = "OPTIONS * RTSP/1.0\r\nCSeq: 1\r\n\r\n";
    let req = RtspRequest::parse(raw).expect("parse failed");
    assert_eq!(req.method, "OPTIONS");
    assert_eq!(req.uri, "*");
    assert_eq!(req.header("CSeq"), Some("1"));
}

#[test]
fn parse_get_parameter_keepalive() {
    let raw = "GET_PARAMETER rtsp://192.168.1.2/wfd1.0 RTSP/1.0\r\nCSeq: 5\r\nContent-Length: 0\r\n\r\n";
    let req = RtspRequest::parse(raw).expect("parse failed");
    assert_eq!(req.method, "GET_PARAMETER");
    assert!(req.body.trim().is_empty());
}

#[test]
fn options_response_contains_wfd() {
    let resp = handle_options("1");
    assert!(resp.contains("org.wfa.wfd1.0"));
    assert!(resp.contains("GET_PARAMETER"));
    assert!(resp.contains("SET_PARAMETER"));
    assert!(resp.contains("SETUP"));
    assert!(resp.contains("PLAY"));
    assert!(resp.contains("TEARDOWN"));
}

#[test]
fn get_parameter_keepalive_returns_200() {
    let raw = "GET_PARAMETER rtsp://192.168.1.2/wfd1.0 RTSP/1.0\r\nCSeq: 5\r\nContent-Length: 0\r\n\r\n";
    let req = RtspRequest::parse(raw).unwrap();
    let cseq = req.header("CSeq").unwrap_or("5").to_owned();
    let mut sid = None;
    let resp = handle_get_parameter(&req, &cseq, 16384, &mut sid);
    assert!(resp.starts_with("RTSP/1.0 200 OK"));
}

#[test]
fn get_parameter_returns_hdcp_none() {
    let body = "wfd_content_protection\r\n";
    let raw = format!(
        "GET_PARAMETER rtsp://192.168.1.2/wfd1.0 RTSP/1.0\r\nCSeq: 3\r\nContent-Length: {}\r\n\r\n{body}",
        body.len()
    );
    let req = RtspRequest::parse(&raw).unwrap();
    let cseq = req.header("CSeq").unwrap_or("3").to_owned();
    let mut sid = None;
    let resp = handle_get_parameter(&req, &cseq, 16384, &mut sid);
    assert!(
        resp.contains("wfd_content_protection: none"),
        "expected hdcp=none in response, got:\n{resp}"
    );
}

#[test]
fn rtsp_response_format() {
    let r = rtsp_response("7", 200, "OK", Some(&["Session: abc123"]), None);
    assert!(r.starts_with("RTSP/1.0 200 OK\r\n"));
    assert!(r.contains("CSeq: 7\r\n"));
    assert!(r.contains("Session: abc123\r\n"));
    assert!(r.contains("Content-Length: 0\r\n"));
}

#[test]
fn teardown_clears_session() {
    let mut sid = Some("abc123".to_owned());
    let resp = handle_teardown("9", &mut sid);
    assert!(resp.starts_with("RTSP/1.0 200 OK"));
    assert!(sid.is_none());
}

#[test]
fn requests_that_cannot_be_parsed() {
    assert!(RtspRequest::parse("").is_none());
    assert!(RtspRequest::parse("OPTIONS\r\n\r\n").is_none());
    assert!(RtspRequest::parse("\r\nOPTIONS * RTSP/1.0\r\n\r\n").is_none());
}

#[test]
fn parsed_parts() {
    let req = request(
        "SETUP rtsp://h/a b c RTSP/1.0\r\nTransport :  RTP;x=1 \r\nno colon\r\nA:b:c\na: d\r\n\r\none\r\ntwo\n\nthree\r\n",
    );
    assert_eq!(req.method, "SETUP");
    assert_eq!(req.uri, "rtsp://h/a");
    assert_eq!(
        req.headers,
        vec![
            ("Transport".to_owned(), "RTP;x=1".to_owned()),
            ("A".to_owned(), "b:c".to_owned()),
            ("a".to_owned(), "d".to_owned()),
        ]
    );
    assert_eq!(req.body, "one\r\ntwo\r\n\r\nthree");
    assert_eq!(req.header("TRANSPORT"), Some("RTP;x=1"));
    assert_eq!(req.header("a"), Some("b:c"));
    assert_eq!(req.header("CSeq"), None);
    // A request line without a version, and an empty method.
    assert_eq!(request("PLAY x\r\n\r\n").uri, "x");
    assert_eq!(request(" x y").method, "");
}

#[test]
fn declared_body_length() {
    let with = |value: &str| request(&format!("A b\r\ncontent-LENGTH: {value}\r\n\r\n"));
    assert_eq!(with("12").content_length(), 12);
    assert_eq!(with("").content_length(), 0);
    assert_eq!(with("-1").content_length(), 0);
    assert_eq!(with("1 2").content_length(), 0);
    assert_eq!(with("18446744073709551615").content_length(), usize::MAX);
    assert_eq!(with("18446744073709551616").content_length(), 0);
    assert_eq!(request("A b\r\n\r\n").content_length(), 0);
    let twice = request("A b\r\nContent-Length: 1\r\nContent-Length: 2\r\n\r\n");
    assert_eq!(twice.content_length(), 2);
}

#[test]
fn whole_responses() {
    assert_eq!(
        rtsp_response("7", 200, "OK", Some(&["A: b", "", "C: d"]), Some("päth\r\n")),
        "RTSP/1.0 200 OK\r\nCSeq: 7\r\nServer: nicocast/1.0\r\nA: b\r\nC: d\r\n\
         Content-Type: text/parameters\r\nContent-Length: 7\r\n\r\npäth\r\n"
    );
    assert_eq!(
        rtsp_response("x", 65535, "", None, Some("")),
        "RTSP/1.0 65535 \r\nCSeq: x\r\nServer: nicocast/1.0\r\nContent-Length: 0\r\n\r\n"
    );
    assert_eq!(
        handle_options("1"),
        "RTSP/1.0 200 OK\r\nCSeq: 1\r\nServer: nicocast/1.0\r\n\
         Public: org.wfa.wfd1.0, GET_PARAMETER, SET_PARAMETER, SETUP, PLAY, TEARDOWN\r\n\
         Content-Length: 0\r\n\r\n"
    );
}

#[test]
fn all_parameters_are_described() {
    let body = "wfd_content_protection\r\nwfd_video_formats\r\n  wfd_audio_codecs \r\n\
                wfd_client_rtp_ports\nwfd_unheard_of\r\nwfd_presentation_URL\r\n\
                wfd_display_edid\r\nwfd_coupled_sink\r\nwfd_uibc_capability\r\n\
                wfd_standby_resume_capability\r\n";
    let req = request(&format!("GET_PARAMETER u RTSP/1.0\r\nCSeq: 3\r\n\r\n{body}"));
    let mut sid = Some("s".to_owned());
    let expected = "wfd_content_protection: none\r\n\
        wfd_video_formats: 00 00 02 02 00008400 00000000 00000000 00 0000 0000 00 none none\r\n\
        wfd_audio_codecs: LPCM 00000003 00\r\n\
        wfd_client_rtp_ports: RTP/AVP/UDP;unicast 16384 16385 mode=play\r\n\
        wfd_presentation_URL: none none\r\n\
        wfd_display_edid: none\r\n\
        wfd_coupled_sink: none\r\n\
        wfd_uibc_capability: none\r\n\
        wfd_standby_resume_capability: none\r\n";
    assert_eq!(
        handle_get_parameter(&req, "3", 16384, &mut sid),
        format!(
            "RTSP/1.0 200 OK\r\nCSeq: 3\r\nServer: nicocast/1.0\r\n\
             Content-Type: text/parameters\r\nContent-Length: {}\r\n\r\n{expected}",
            expected.len()
        )
    );
    assert_eq!(sid.as_deref(), Some("s"));
}

#[test]
fn unknown_parameters_alone_leave_an_empty_line() {
    let mut sid = None;
    let got = answer("GET_PARAMETER u\r\nCSeq: 4\r\n\r\nwfd_x\r\n", 1, &mut sid);
    assert!(got.ends_with("Content-Length: 2\r\n\r\n\r\n"));
}

#[test]
fn keep_alive_names_the_session() {
    let mut sid = Some("abc".to_owned());
    let got = answer("GET_PARAMETER u\r\nCSeq: 4\r\n\r\n \t\r\n", 65535, &mut sid);
    assert_eq!(
        got,
        "RTSP/1.0 200 OK\r\nCSeq: 4\r\nServer: nicocast/1.0\r\nSession: abc\r\n\
         Content-Length: 0\r\n\r\n"
    );
    assert_eq!(sid.as_deref(), Some("abc"));
}

#[test]
fn set_parameter_and_play_acknowledge() {
    let bare = "RTSP/1.0 200 OK\r\nCSeq: 5\r\nServer: nicocast/1.0\r\nContent-Length: 0\r\n\r\n";
    let named = "RTSP/1.0 200 OK\r\nCSeq: 5\r\nServer: nicocast/1.0\r\nSession: q\r\n\
                 Content-Length: 0\r\n\r\n";
    let req = request("SET_PARAMETER u\r\n\r\nwfd_trigger_method: SETUP\r\n");
    let mut sid = None;
    assert_eq!(handle_set_parameter(&req, "5", &mut sid), bare);
    assert_eq!(handle_play("5", &mut sid), bare);
    assert!(sid.is_none());
    sid = Some("q".to_owned());
    assert_eq!(handle_set_parameter(&req, "5", &mut sid), named);
    assert_eq!(handle_play("5", &mut sid), named);
    assert_eq!(sid.as_deref(), Some("q"));
}

#[test]
fn triggers_are_found() {
    let req = request(
        "SET_PARAMETER u\r\n\r\n a: b\r\n wfd_trigger_method: SETUP \r\nxwfd_trigger_method: no\r\n\
         wfd_trigger_method:wfd_trigger_method:PLAY\r\nwfd_trigger_method:",
    );
    assert_eq!(trigger_methods(&req), vec!["SETUP", "PLAY", ""]);
    assert!(trigger_methods(&request("SET_PARAMETER u\r\n\r\n")).is_empty());
}

#[test]
fn setup_with_a_known_id() {
    let mut sid = None;
    let req = request("SETUP u\r\nTransport: RTP/AVP/UDP;unicast;client_port=5-6\r\n\r\n");
    assert_eq!(
        setup_with_id(&req, "6", 65535, &mut sid, 0xAB),
        "RTSP/1.0 200 OK\r\nCSeq: 6\r\nServer: nicocast/1.0\r\n\
         Session: 00000000000000ab;timeout=60\r\n\
         Transport: RTP/AVP/UDP;unicast;client_port=5-6\r\nContent-Length: 0\r\n\r\n"
    );
    assert_eq!(sid.as_deref(), Some("00000000000000ab"));
}

#[test]
fn setup_completes_the_transport() {
    let mut sid = Some("keep".to_owned());
    let partial = request("SETUP u\r\ntransport: RTP/AVP\r\n\r\n");
    let got = setup_with_id(&partial, "6", 16384, &mut sid, 1);
    assert!(got.contains("\r\nTransport: RTP/AVP;server_port=16384-16385\r\n"));
    assert!(got.contains("\r\nSession: keep;timeout=60\r\n"));
    let bare = request("SETUP u\r\n\r\n");
    let got = setup_with_id(&bare, "6", 16384, &mut sid, 2);
    assert!(got.contains(
        "\r\nTransport: RTP/AVP/UDP;unicast;client_port=16384-16385;server_port=16384-16385\r\n"
    ));
    assert_eq!(sid.as_deref(), Some("keep"));
}

#[test]
fn the_rtcp_port_is_needed_where_it_is_named() {
    assert!(request("SETUP u\r\n\r\n").needs_rtcp_port());
    assert!(request("SETUP u\r\nTransport: x\r\n\r\n").needs_rtcp_port());
    assert!(!request("SETUP u\r\nTransport: client_port=1\r\n\r\n").needs_rtcp_port());
    assert!(request("GET_PARAMETER u\r\n\r\nx\r\n wfd_client_rtp_ports\r\n").needs_rtcp_port());
    assert!(!request("GET_PARAMETER u\r\n\r\nwfd_video_formats\r\n").needs_rtcp_port());
    assert!(!request("PLAY u\r\n\r\nwfd_client_rtp_ports").needs_rtcp_port());
}

#[test]
fn session_lifecycle() {
    let mut sid = None;
    for raw in ["OPTIONS *", "PLAY u", "DESCRIBE u", "GET_PARAMETER u", "SET_PARAMETER u"] {
        answer(raw, 7, &mut sid);
        assert!(sid.is_none(), "{raw}");
    }
    answer("SETUP u", 7, &mut sid);
    let first = sid.clone().expect("a session");
    assert_eq!(first.len(), 16);
    assert!(first.chars().all(|c| c.is_ascii_digit() || ('a'..='f').contains(&c)));
    for raw in ["SETUP u", "OPTIONS *", "PLAY u", "DESCRIBE u", "GET_PARAMETER u"] {
        answer(raw, 7, &mut sid);
        assert_eq!(sid.as_ref(), Some(&first), "{raw}");
    }
    answer("TEARDOWN u", 7, &mut sid);
    assert!(sid.is_none());
}

#[test]
fn every_answer_has_status_and_cseq() {
    for method in ["OPTIONS", "GET_PARAMETER", "SET_PARAMETER", "SETUP", "PLAY", "TEARDOWN"] {
        let mut sid = None;
        let got = answer(&format!("{method} u\r\nCSeq: 42\r\n\r\n"), 7, &mut sid);
        assert!(got.starts_with("RTSP/1.0 200 OK\r\nCSeq: 42\r\n"), "{got}");
    }
    for method in ["options", "DESCRIBE", "RTSP/1.0", ""] {
        let mut sid = None;
        let got = answer(&format!("{method} u\r\nCSeq: 42\r\n\r\n"), 7, &mut sid);
        assert_eq!(
            got,
            "RTSP/1.0 501 Not Implemented\r\nCSeq: 42\r\nServer: nicocast/1.0\r\n\
             Content-Length: 0\r\n\r\n"
        );
    }
}

#[test]
fn session_ids_from_clock_readings() {
    assert_eq!(session_id_from(Some((0, 0))), 0);
    assert_eq!(session_id_from(Some((1, 5))), 0x10_0005);
    assert_eq!(session_id_from(Some((3, 0x3b9a_c9ff))), (3 << 20) ^ 0x3b9a_c9ff);
    // The upper bits of the seconds are shifted out.
    assert_eq!(session_id_from(Some((1 << 44, 9))), 9);
    assert_eq!(session_id_from(None), 0xDEAD_BEEF_1234_5678);
}

#[test]
fn session_ids_follow_the_system_clock() {
    let now = || {
        std::time::SystemTime::now()
            .duration_since(std::time::UNIX_EPOCH)
            .expect("a clock after the epoch")
            .as_secs()
    };
    let before = now();
    let id = rand_session_id();
    let after = now();
    // The nanoseconds take fewer than thirty bits.
    assert!(before >> 10 <= id >> 30 && id >> 30 <= after >> 10);
    let mut sid = None;
    handle_setup(&request("SETUP u\r\n\r\n"), "1", 5, &mut sid);
    let sent = u64::from_str_radix(&sid.expect("a session"), 16).expect("hex digits");
    assert!(before >> 10 <= sent >> 30);
}
