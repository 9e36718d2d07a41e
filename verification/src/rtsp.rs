//! RTSP control plane of a Miracast (Wi-Fi Display) sink.

use vstd::prelude::*;

use crate::text;

verus! {

/// A minimally-parsed RTSP request.
#[derive(Debug)]
pub struct RtspRequest {
    pub method: String,
    pub uri: String,
    /// Header names and values, in the order of the request.
    pub headers: Vec<(String, String)>,
    pub body: String,
}

/// What a request holds.
#[verifier::ext_equal]
pub struct RequestView {
    pub method: Seq<char>,
    pub uri: Seq<char>,
    pub headers: Seq<(Seq<char>, Seq<char>)>,
    pub body: Seq<char>,
}

/// The names and values of a list of headers.
pub open spec fn header_texts(h: Seq<(String, String)>) -> Seq<(Seq<char>, Seq<char>)> {
    h.map_values(|kv: (String, String)| (kv.0@, kv.1@))
}

impl View for RtspRequest {
    type V = RequestView;

    open spec fn view(&self) -> RequestView {
        RequestView {
            method: self.method@,
            uri: self.uri@,
            headers: header_texts(self.headers@),
            body: self.body@,
        }
    }
}

/// The header that a line holds: a name and a value around its first colon,
/// each without surrounding white space.
pub open spec fn header_in(line: Seq<char>) -> Seq<(Seq<char>, Seq<char>)> {
    let i = text::find_char(line, ':');
    if i < line.len() {
        seq![(text::trimmed(line.take(i)), text::trimmed(line.skip(i + 1)))]
    } else {
        seq![]
    }
}

/// The headers in `lines`, which end at the first empty line.  A line without
/// a colon holds none.
pub open spec fn headers_in(lines: Seq<Seq<char>>) -> Seq<(Seq<char>, Seq<char>)>
    decreases lines.len(),
{
    if lines.len() == 0 || lines[0].len() == 0 {
        seq![]
    } else {
        header_in(lines[0]) + headers_in(lines.drop_first())
    }
}

/// The lines that follow the first empty one.
pub open spec fn body_lines(lines: Seq<Seq<char>>) -> Seq<Seq<char>>
    decreases lines.len(),
{
    if lines.len() == 0 {
        seq![]
    } else if lines[0].len() == 0 {
        lines.drop_first()
    } else {
        body_lines(lines.drop_first())
    }
}

/// The request that `raw` spells: a request line `METHOD uri [version]`,
/// headers, an empty line, and a body whose lines are joined by CR LF.
pub open spec fn parsed(raw: Seq<char>) -> Option<RequestView> {
    let lines = text::lines_of(raw);
    if lines.len() == 0 {
        None
    } else {
        let first = lines[0];
        let a = text::find_char(first, ' ');
        if a >= first.len() {
            None
        } else {
            let after = first.skip(a + 1);
            Some(
                RequestView {
                    method: first.take(a),
                    uri: after.take(text::find_char(after, ' ')),
                    headers: headers_in(lines.drop_first()),
                    body: text::joined(body_lines(lines.drop_first()), "\r\n"@),
                },
            )
        }
    }
}

/// The value of the first header called `name`, whatever the case of its letters.
pub open spec fn header_value(
    headers: Seq<(Seq<char>, Seq<char>)>,
    name: Seq<char>,
) -> Option<Seq<char>>
    decreases headers.len(),
{
    if headers.len() == 0 {
        None
    } else if text::lowered(headers[0].0) == text::lowered(name) {
        Some(headers[0].1)
    } else {
        header_value(headers.drop_first(), name)
    }
}

/// The number of body bytes that a list of headers declares: that of its last
/// `Content-Length`, and none where that is missing or no number.
pub open spec fn declared_length(headers: Seq<(Seq<char>, Seq<char>)>) -> nat
    decreases headers.len(),
{
    if headers.len() == 0 {
        0
    } else if text::lowered(headers.last().0) == text::lowered("content-length"@) {
        match text::unsigned(headers.last().1, usize::MAX as nat) {
            Some(n) => n,
            None => 0,
        }
    } else {
        declared_length(headers.drop_last())
    }
}

impl RtspRequest {
    /// Parse a request.  The protocol version is accepted as it stands; there
    /// is no request where the text is empty or its first line has no URI.
    pub fn parse(raw: &str) -> (r: Option<Self>)
        ensures
            match r {
                Some(q) => parsed(raw@) == Some(q@),
                None => parsed(raw@) is None,
            },
    {
        let chars = text::chars_of(raw);
        let lines = text::lines(chars.as_slice());
        let ghost all = text::lines_of(raw@);
        if lines.len() == 0 {
            return None;
        }
        let first = lines[0].as_slice();
        assert(first@ == all[0]);
        let a = text::find_char_from(first, 0, ' ');
        assert(first@.skip(0) == first@);
        if a == first.len() {
            return None;
        }
        let b = text::find_char_from(first, a + 1, ' ');
        let method = text::text_of(text::chars_between(first, 0, a).as_slice());
        let uri = text::text_of(text::chars_between(first, a + 1, b).as_slice());
        assert(method@ == all[0].take(a as int));
        assert(uri@ == all[0].skip(a + 1).take(b - (a + 1)));

        let mut headers: Vec<(String, String)> = Vec::new();
        let mut i: usize = 1;
        let ghost rest = all.drop_first();
        assert(all.skip(1) == rest);
        assert(header_texts(headers@) + headers_in(rest) =~= headers_in(rest));
        while i < lines.len() && lines[i].len() != 0
            invariant
                1 <= i <= lines@.len(),
                all == text::rows(lines@),
                rest == all.drop_first(),
                header_texts(headers@) + headers_in(all.skip(i as int)) == headers_in(rest),
                body_lines(all.skip(i as int)) == body_lines(rest),
            decreases lines@.len() - i,
        {
            let line = lines[i].as_slice();
            let ghost before = header_texts(headers@);
            let ghost tail = all.skip(i as int);
            assert(tail[0] == line@);
            assert(tail.drop_first() == all.skip(i + 1));
            let k = text::find_char_from(line, 0, ':');
            assert(line@.skip(0) == line@);
            if k < line.len() {
                let key = text::text_of(
                    text::trim(text::chars_between(line, 0, k).as_slice()).as_slice(),
                );
                let val = text::text_of(
                    text::trim(
                        text::chars_between(line, k + 1, line.len()).as_slice(),
                    ).as_slice(),
                );
                assert(line@.subrange(0, k as int) == line@.take(k as int));
                assert(line@.subrange(k + 1, line@.len() as int) == line@.skip(k + 1));
                let ghost kv = (key@, val@);
                headers.push((key, val));
                assert(header_texts(headers@) =~= before.push(kv));
                assert(before + (seq![kv] + headers_in(all.skip(i + 1))) =~= before.push(kv)
                    + headers_in(all.skip(i + 1)));
            } else {
                assert(Seq::<(Seq<char>, Seq<char>)>::empty() + headers_in(all.skip(i + 1))
                    =~= headers_in(all.skip(i + 1)));
            }
            i = i + 1;
        }
        let from = if i < lines.len() {
            i + 1
        } else {
            i
        };
        proof {
            let tail = all.skip(i as int);
            assert(headers_in(tail) == Seq::<(Seq<char>, Seq<char>)>::empty());
            assert(header_texts(headers@) + headers_in(tail) =~= header_texts(headers@));
            if i < lines@.len() {
                assert(tail[0] == lines@[i as int]@);
                assert(tail.drop_first() == all.skip(from as int));
            } else {
                assert(tail == Seq::<Seq<char>>::empty());
                assert(all.skip(from as int) == Seq::<Seq<char>>::empty());
            }
        }
        let body = text::join_rows(lines.as_slice(), from, "\r\n");
        Some(RtspRequest { method, uri, headers, body })
    }

    /// Value of the first header called `name`, whatever the case of its letters.
    pub fn header(&self, name: &str) -> (r: Option<&str>)
        ensures
            match r {
                Some(v) => header_value(self@.headers, name@) == Some(v@),
                None => header_value(self@.headers, name@) is None,
            },
    {
        let ghost all = self@.headers;
        let mut i: usize = 0;
        assert(all.skip(0) == all);
        while i < self.headers.len()
            invariant
                i <= self.headers@.len(),
                all == self@.headers,
                header_value(all.skip(i as int), name@) == header_value(all, name@),
            decreases self.headers@.len() - i,
        {
            assert(all.skip(i as int)[0] == (self.headers@[i as int].0@, self.headers@[i as int].1@));
            if text::same_ignoring_case(self.headers[i].0.as_str(), name) {
                return Some(self.headers[i].1.as_str());
            }
            assert(all.skip(i as int).drop_first() == all.skip(i + 1));
            i = i + 1;
        }
        None
    }

    /// The number of body bytes that the headers declare.
    pub fn content_length(&self) -> (n: usize)
        ensures
            n == declared_length(self@.headers),
    {
        let ghost all = self@.headers;
        let mut i: usize = self.headers.len();
        assert(all.take(i as int) == all);
        while i > 0
            invariant
                i <= self.headers@.len(),
                all == self@.headers,
                declared_length(all.take(i as int)) == declared_length(all),
            decreases i,
        {
            let kv = &self.headers[i - 1];
            assert(all.take(i as int).last() == (kv.0@, kv.1@));
            if text::same_ignoring_case(kv.0.as_str(), "content-length") {
                let value = text::chars_of(kv.1.as_str());
                return match text::parse_unsigned(value.as_slice(), usize::MAX as u64) {
                    Some(n) => n as usize,
                    None => 0,
                };
            }
            assert(all.take(i as int).drop_last() == all.take(i - 1));
            i = i - 1;
        }
        0
    }
}

// ---------------------------------------------------------------------------
// Responses
// ---------------------------------------------------------------------------

/// Each of `headers` on a line of its own; empty ones are left out.
pub open spec fn header_lines(headers: Seq<Seq<char>>) -> Seq<char>
    decreases headers.len(),
{
    if headers.len() == 0 {
        seq![]
    } else if headers.last().len() == 0 {
        header_lines(headers.drop_last())
    } else {
        header_lines(headers.drop_last()) + headers.last() + "\r\n"@
    }
}

/// The header lines that describe a body.
pub open spec fn body_headers(body: Seq<char>) -> Seq<char> {
    if body.len() == 0 {
        "Content-Length: 0\r\n"@
    } else {
        "Content-Type: text/parameters\r\n"@ + "Content-Length: "@ + text::decimal(
            text::byte_len(body),
        ) + "\r\n"@
    }
}

/// A complete response: status line, `CSeq`, `Server`, further headers, the
/// headers that describe the body, an empty line, and the body.
pub open spec fn response(
    cseq: Seq<char>,
    status: nat,
    reason: Seq<char>,
    headers: Seq<Seq<char>>,
    body: Seq<char>,
) -> Seq<char> {
    "RTSP/1.0 "@ + text::decimal(status) + " "@ + reason + "\r\n"@ + "CSeq: "@ + cseq + "\r\n"@
        + "Server: nicocast/1.0\r\n"@ + header_lines(headers) + body_headers(body) + "\r\n"@
        + body
}

/// The texts of an optional list of headers.
pub open spec fn opt_headers(headers: Option<&[&str]>) -> Seq<Seq<char>> {
    match headers {
        Some(h) => text::str_texts(h@),
        None => seq![],
    }
}

/// The text of an optional body.
pub open spec fn opt_body(body: Option<&str>) -> Seq<char> {
    match body {
        Some(b) => b@,
        None => seq![],
    }
}

/// Build a complete RTSP response.
pub fn rtsp_response(
    cseq: &str,
    status: u16,
    reason: &str,
    extra_headers: Option<&[&str]>,
    body: Option<&str>,
) -> (out: String)
    ensures
        out@ == response(
            cseq@,
            status as nat,
            reason@,
            opt_headers(extra_headers),
            opt_body(body),
        ),
{
    let mut out = "RTSP/1.0 ".to_owned();
    text::push_decimal(&mut out, status as u64);
    out.append(" ");
    out.append(reason);
    out.append("\r\n");
    out.append("CSeq: ");
    out.append(cseq);
    out.append("\r\n");
    out.append("Server: nicocast/1.0\r\n");
    let ghost head = out@;
    match extra_headers {
        Some(headers) => {
            let ghost all = text::str_texts(headers@);
            assert(head + header_lines(all.take(0)) =~= head);
            for i in 0..headers.len()
                invariant
                    all == text::str_texts(headers@),
                    out@ == head + header_lines(all.take(i as int)),
            {
                let h = headers[i];
                let ghost so_far = header_lines(all.take(i as int));
                assert(all.take(i + 1).drop_last() == all.take(i as int));
                assert(all.take(i + 1).last() == h@);
                if !h.is_empty() {
                    out.append(h);
                    out.append("\r\n");
                    assert(head + so_far + h@ + "\r\n"@ =~= head + (so_far + h@ + "\r\n"@));
                }
            }
            assert(all.take(all.len() as int) == all);
        },
        None => {
            assert(head + header_lines(seq![]) =~= head);
        },
    }
    let ghost upto = out@;
    let body_str: &str = match body {
        Some(b) => b,
        None => "",
    };
    proof {
        reveal_strlit("");
        assert(body_str@ =~= opt_body(body));
    }
    if !body_str.is_empty() {
        out.append("Content-Type: text/parameters\r\n");
        out.append("Content-Length: ");
        text::push_decimal(&mut out, body_str.as_bytes().len() as u64);
        out.append("\r\n");
        assert(out@ =~= upto + body_headers(body_str@));
    } else {
        out.append("Content-Length: 0\r\n");
        assert(out@ =~= upto + body_headers(body_str@));
    }
    out.append("\r\n");
    out.append(body_str);
    out
}

// ---------------------------------------------------------------------------
// Sessions
// ---------------------------------------------------------------------------

/// The header that names a session, where there is one.
pub open spec fn session_headers(session: Option<Seq<char>>) -> Seq<Seq<char>> {
    match session {
        Some(sid) => seq!["Session: "@ + sid],
        None => seq![],
    }
}

/// The session ID for a clock reading in seconds and nanoseconds since the
/// Unix epoch.  A clock that stands before the epoch gives a fixed ID.
pub open spec fn session_id_for(clock: Option<(u64, u32)>) -> u64 {
    match clock {
        Some((secs, nanos)) => (nanos as u64) ^ (secs << 20),
        None => 0xDEAD_BEEF_1234_5678,
    }
}

/// Whether a clock reading is possible: its nanoseconds are less than a second.
pub open spec fn is_reading(clock: Option<(u64, u32)>) -> bool {
    clock matches Some((_, nanos)) ==> nanos < 1_000_000_000
}

/// The system clock's point in time, `std::time::SystemTime`.
#[verifier::external_type_specification]
#[verifier::external_body]
pub struct ExSystemTime(std::time::SystemTime);

/// Contract of `SystemTime::now`: nothing holds of every reading.
pub assume_specification[ std::time::SystemTime::now ]() -> (t: std::time::SystemTime);

/// `SystemTime::duration_since` for the Unix epoch, with the duration as whole
/// seconds and nanoseconds; there is none where `t` stands before the epoch.
/// The nanoseconds are a fraction of a second.  `t` shows nothing of what it
/// holds, so which duration belongs to it is not stated.
#[verifier::external_body]
fn since_epoch(t: &std::time::SystemTime) -> (r: Option<(u64, u32)>)
    ensures
        is_reading(r),
{
    match t.duration_since(std::time::UNIX_EPOCH) {
        Ok(d) => Some((d.as_secs(), d.subsec_nanos())),
        Err(_) => None,
    }
}

/// Session ID for a clock reading.
pub fn session_id_from(clock: Option<(u64, u32)>) -> (id: u64)
    ensures
        id == session_id_for(clock),
{
    match clock {
        Some((secs, nanos)) => (nanos as u64) ^ (secs << 20),
        None => 0xDEAD_BEEF_1234_5678,
    }
}

/// Whether a clock reading is one that `since_epoch` takes of a time that
/// `SystemTime::now` gives.
pub closed spec fn clock_gave(reading: Option<(u64, u32)>) -> bool {
    exists|t: std::time::SystemTime|
        call_ensures(std::time::SystemTime::now, (), t) && #[trigger] call_ensures(
            since_epoch,
            (&t,),
            reading,
        )
}

/// Whether a session ID is drawn from the system clock.
pub open spec fn is_drawn(id: u64) -> bool {
    exists|reading: Option<(u64, u32)>|
        clock_gave(reading) && is_reading(reading) && id == #[trigger] session_id_for(reading)
}

/// The reading that `since` takes of a time that `now` gives.
fn reading_by<
    N: Fn() -> std::time::SystemTime,
    S: Fn(&std::time::SystemTime) -> Option<(u64, u32)>,
>(now: N, since: S) -> (reading: Option<(u64, u32)>)
    requires
        call_requires(now, ()),
        forall|t: std::time::SystemTime| #[trigger] call_requires(since, (&t,)),
    ensures
        exists|t: std::time::SystemTime|
            call_ensures(now, (), t) && #[trigger] call_ensures(since, (&t,), reading),
{
    let t = now();
    since(&t)
}

/// A session ID from the system clock, enough to tell the sessions of a
/// single peer apart.
pub fn rand_session_id() -> (id: u64)
    ensures
        is_drawn(id),
{
    session_id_from(reading_by(std::time::SystemTime::now, since_epoch))
}

/// The session ID as it is sent: sixteen hexadecimal digits.
pub open spec fn session_text(id: u64) -> Seq<char> {
    text::hex_fixed(id as nat, 16)
}

// ---------------------------------------------------------------------------
// Method handlers
// ---------------------------------------------------------------------------

/// The answer to `OPTIONS`.
pub open spec fn options_reply(cseq: Seq<char>) -> Seq<char> {
    response(
        cseq,
        200,
        "OK"@,
        seq![
            "Public: org.wfa.wfd1.0, GET_PARAMETER, SET_PARAMETER, SETUP, PLAY, TEARDOWN"@,
        ],
        seq![],
    )
}

/// M1, `OPTIONS`: advertise all supported methods.
pub fn handle_options(cseq: &str) -> (out: String)
    ensures
        out@ == options_reply(cseq@),
{
    let headers: [&str; 1] = [
        "Public: org.wfa.wfd1.0, GET_PARAMETER, SET_PARAMETER, SETUP, PLAY, TEARDOWN",
    ];
    assert(text::str_texts(headers@) =~= seq![headers[0]@]);
    rtsp_response(cseq, 200, "OK", Some(&headers), None)
}

/// A bare acknowledgement that names the session, where there is one.
pub open spec fn session_reply(cseq: Seq<char>, session: Option<Seq<char>>) -> Seq<char> {
    response(cseq, 200, "OK"@, session_headers(session), seq![])
}

/// Acknowledge a request, naming the session where there is one.
fn acknowledge(cseq: &str, session_id: &Option<String>) -> (out: String)
    ensures
        out@ == session_reply(cseq@, text::opt_text(*session_id)),
{
    match session_id {
        Some(sid) => {
            let mut header = "Session: ".to_owned();
            header.append(sid.as_str());
            let headers: [&str; 1] = [header.as_str()];
            assert(text::str_texts(headers@) =~= seq![header@]);
            rtsp_response(cseq, 200, "OK", Some(&headers), None)
        },
        None => rtsp_response(cseq, 200, "OK", None, None),
    }
}

/// What the sink says of a capability parameter that it knows.
pub open spec fn parameter_line(param: Seq<char>, rtp_port: u16) -> Seq<Seq<char>> {
    if param == "wfd_content_protection"@ {
        seq!["wfd_content_protection: none"@]
    } else if param == "wfd_video_formats"@ {
        seq![
            "wfd_video_formats: 00 00 02 02 00008400 00000000 00000000 00 0000 0000 00 none none"@,
        ]
    } else if param == "wfd_audio_codecs"@ {
        seq!["wfd_audio_codecs: LPCM 00000003 00"@]
    } else if param == "wfd_client_rtp_ports"@ {
        seq![
            "wfd_client_rtp_ports: RTP/AVP/UDP;unicast "@ + text::decimal(rtp_port as nat) + " "@
                + text::decimal((rtp_port + 1) as nat) + " mode=play"@,
        ]
    } else if param == "wfd_presentation_URL"@ {
        seq!["wfd_presentation_URL: none none"@]
    } else if param == "wfd_display_edid"@ {
        seq!["wfd_display_edid: none"@]
    } else if param == "wfd_coupled_sink"@ {
        seq!["wfd_coupled_sink: none"@]
    } else if param == "wfd_uibc_capability"@ {
        seq!["wfd_uibc_capability: none"@]
    } else if param == "wfd_standby_resume_capability"@ {
        seq!["wfd_standby_resume_capability: none"@]
    } else {
        seq![]
    }
}

/// What the sink says of the parameters that `lines` ask for, in their order.
pub open spec fn parameter_lines(lines: Seq<Seq<char>>, rtp_port: u16) -> Seq<Seq<char>>
    decreases lines.len(),
{
    if lines.len() == 0 {
        seq![]
    } else {
        parameter_lines(lines.drop_last(), rtp_port) + parameter_line(
            text::trimmed(lines.last()),
            rtp_port,
        )
    }
}

/// The lines of a `GET_PARAMETER` body.
pub open spec fn queried(body: Seq<char>) -> Seq<Seq<char>> {
    text::lines_of(text::trimmed(body))
}

/// The answer to `GET_PARAMETER`: a bare acknowledgement of a keep-alive, or
/// one line for each parameter asked for that the sink knows.
pub open spec fn get_parameter_reply(
    body: Seq<char>,
    cseq: Seq<char>,
    rtp_port: u16,
    session: Option<Seq<char>>,
) -> Seq<char> {
    if text::trimmed(body).len() == 0 {
        session_reply(cseq, session)
    } else {
        response(
            cseq,
            200,
            "OK"@,
            seq![],
            text::joined(parameter_lines(queried(body), rtp_port), "\r\n"@) + "\r\n"@,
        )
    }
}

/// Whether a `GET_PARAMETER` body asks for the RTP ports.
pub open spec fn asks_rtp_ports(body: Seq<char>) -> bool {
    exists|i: int|
        0 <= i < queried(body).len() && #[trigger] text::trimmed(queried(body)[i])
            == "wfd_client_rtp_ports"@
}

/// What the sink says of one capability parameter.
fn describe_parameter(param: &str, rtp_port: u16) -> (out: Option<String>)
    requires
        rtp_port < u16::MAX || param@ != "wfd_client_rtp_ports"@,
    ensures
        match out {
            Some(line) => parameter_line(param@, rtp_port) == seq![line@],
            None => parameter_line(param@, rtp_port) == Seq::<Seq<char>>::empty(),
        },
{
    if text::same(param, "wfd_content_protection") {
        // HDCP is not required.
        Some("wfd_content_protection: none".to_owned())
    } else if text::same(param, "wfd_video_formats") {
        // H.264 CBP level 3.1, 1920x1080p30, native index 0.
        Some(
            "wfd_video_formats: 00 00 02 02 00008400 00000000 00000000 00 0000 0000 00 none none".to_owned(),
        )
    } else if text::same(param, "wfd_audio_codecs") {
        // LPCM 44.1 kHz, two channels, latency 0.
        Some("wfd_audio_codecs: LPCM 00000003 00".to_owned())
    } else if text::same(param, "wfd_client_rtp_ports") {
        // RTP on `rtp_port`, RTCP on the port after it.
        let mut line = "wfd_client_rtp_ports: RTP/AVP/UDP;unicast ".to_owned();
        text::push_decimal(&mut line, rtp_port as u64);
        line.append(" ");
        text::push_decimal(&mut line, (rtp_port + 1) as u64);
        line.append(" mode=play");
        Some(line)
    } else if text::same(param, "wfd_presentation_URL") {
        Some("wfd_presentation_URL: none none".to_owned())
    } else if text::same(param, "wfd_display_edid") {
        Some("wfd_display_edid: none".to_owned())
    } else if text::same(param, "wfd_coupled_sink") {
        Some("wfd_coupled_sink: none".to_owned())
    } else if text::same(param, "wfd_uibc_capability") {
        Some("wfd_uibc_capability: none".to_owned())
    } else if text::same(param, "wfd_standby_resume_capability") {
        Some("wfd_standby_resume_capability: none".to_owned())
    } else {
        None
    }
}

/// M3 and M16, `GET_PARAMETER`: return the capabilities asked for, or
/// acknowledge a keep-alive, which has an empty body.
pub fn handle_get_parameter(
    req: &RtspRequest,
    cseq: &str,
    rtp_port: u16,
    session_id: &mut Option<String>,
) -> (out: String)
    requires
        rtp_port < u16::MAX || !asks_rtp_ports(req@.body),
    ensures
        out@ == get_parameter_reply(req@.body, cseq@, rtp_port, text::opt_text(*old(session_id))),
        *final(session_id) == *old(session_id),
{
    let body = text::trim(text::chars_of(req.body.as_str()).as_slice());
    if body.len() == 0 {
        return acknowledge(cseq, session_id);
    }
    let lines = text::lines(body.as_slice());
    let ghost all = queried(req@.body);
    let mut params: Vec<Vec<char>> = Vec::new();
    assert(text::rows(params@) =~= parameter_lines(all.take(0), rtp_port));
    for i in 0..lines.len()
        invariant
            all == text::rows(lines@),
            all == queried(req@.body),
            rtp_port < u16::MAX || !asks_rtp_ports(req@.body),
            text::rows(params@) == parameter_lines(all.take(i as int), rtp_port),
    {
        let param = text::text_of(text::trim(lines[i].as_slice()).as_slice());
        let ghost before = text::rows(params@);
        proof {
            assert(all[i as int] == lines@[i as int]@);
            assert(text::trimmed(queried(req@.body)[i as int]) == param@);
            assert(all.take(i + 1).drop_last() == all.take(i as int));
            assert(all.take(i + 1).last() == all[i as int]);
        }
        match describe_parameter(param.as_str(), rtp_port) {
            Some(line) => {
                let row = text::chars_of(line.as_str());
                params.push(row);
                assert(text::rows(params@) =~= before + seq![line@]);
            },
            None => {
                assert(before + Seq::<Seq<char>>::empty() =~= before);
            },
        }
    }
    assert(all.take(all.len() as int) == all);
    assert(text::rows(params@).skip(0) == text::rows(params@));
    let mut answer = text::join_rows(params.as_slice(), 0, "\r\n");
    answer.append("\r\n");
    rtsp_response(cseq, 200, "OK", None, Some(answer.as_str()))
}

/// `s` without `prefix` at its beginning, however often it stands there.
pub open spec fn without_prefix(s: Seq<char>, prefix: Seq<char>) -> Seq<char>
    decreases s.len(),
{
    if prefix.len() > 0 && text::occurs_at(s, prefix, 0) {
        without_prefix(s.skip(prefix.len() as int), prefix)
    } else {
        s
    }
}

/// The trigger that a line of a `SET_PARAMETER` body names.
pub open spec fn trigger_in(line: Seq<char>) -> Seq<Seq<char>> {
    let t = text::trimmed(line);
    if text::occurs_at(t, "wfd_trigger_method:"@, 0) {
        seq![text::trimmed(without_prefix(t, "wfd_trigger_method:"@))]
    } else {
        seq![]
    }
}

/// The triggers that the lines of a `SET_PARAMETER` body name, in their order.
pub open spec fn triggers_in(lines: Seq<Seq<char>>) -> Seq<Seq<char>>
    decreases lines.len(),
{
    if lines.len() == 0 {
        seq![]
    } else {
        triggers_in(lines.drop_last()) + trigger_in(lines.last())
    }
}

/// The triggers that a `SET_PARAMETER` request names, such as `SETUP` in M5.
pub fn trigger_methods(req: &RtspRequest) -> (out: Vec<String>)
    ensures
        text::texts(out@) == triggers_in(text::lines_of(req@.body)),
{
    let chars = text::chars_of(req.body.as_str());
    let lines = text::lines(chars.as_slice());
    let prefix = text::chars_of("wfd_trigger_method:");
    let n = prefix.len();
    proof {
        reveal_strlit("wfd_trigger_method:");
    }
    let ghost all = text::lines_of(req@.body);
    let mut out: Vec<String> = Vec::new();
    assert(text::texts(out@) =~= triggers_in(all.take(0)));
    for i in 0..lines.len()
        invariant
            all == text::rows(lines@),
            prefix@ == "wfd_trigger_method:"@,
            n == prefix@.len(),
            n > 0,
            text::texts(out@) == triggers_in(all.take(i as int)),
    {
        let line = text::trim(lines[i].as_slice());
        let ghost before = text::texts(out@);
        proof {
            assert(all[i as int] == lines@[i as int]@);
            assert(all.take(i + 1).drop_last() == all.take(i as int));
            assert(all.take(i + 1).last() == all[i as int]);
            assert(line@.skip(0) == line@);
        }
        let mut from: usize = 0;
        while from < line.len() && text::stands_at(line.as_slice(), prefix.as_slice(), from)
            invariant
                from <= line@.len() == line.len(),
                prefix@ == "wfd_trigger_method:"@,
                n == prefix@.len(),
                n > 0,
                from > 0 ==> text::occurs_at(line@, prefix@, 0),
                from == 0 ==> line@.skip(0) == line@,
                without_prefix(line@.skip(from as int), prefix@) == without_prefix(line@, prefix@),
            decreases line@.len() - from,
        {
            assert(line@.skip(from as int).subrange(0, n as int) =~= line@.subrange(
                from as int,
                from + n,
            ));
            assert(line@.skip(from as int).skip(n as int) =~= line@.skip(from + n));
            from = from + n;
        }
        let ghost rest = line@.skip(from as int);
        assert(!text::occurs_at(rest, prefix@, 0)) by {
            if text::occurs_at(rest, prefix@, 0) {
                assert(rest.subrange(0, n as int) =~= line@.subrange(from as int, from + n));
            }
        }
        if from > 0 {
            let chars_left = text::chars_between(line.as_slice(), from, line.len());
            let trigger = text::text_of(text::trim(chars_left.as_slice()).as_slice());
            assert(chars_left@ =~= rest);
            out.push(trigger);
            assert(text::texts(out@) =~= before + seq![trigger@]);
        } else {
            assert(before + Seq::<Seq<char>>::empty() =~= before);
        }
    }
    assert(all.take(all.len() as int) == all);
    out
}

/// M4 and M5, `SET_PARAMETER`: accept negotiated parameters or a trigger.
pub fn handle_set_parameter(
    req: &RtspRequest,
    cseq: &str,
    session_id: &mut Option<String>,
) -> (out: String)
    ensures
        out@ == session_reply(cseq@, text::opt_text(*old(session_id))),
        *final(session_id) == *old(session_id),
{
    acknowledge(cseq, session_id)
}

/// The transport that `SETUP` agrees to: that of the request, with the
/// server's ports added where it names no client port.
pub open spec fn transport_for(
    headers: Seq<(Seq<char>, Seq<char>)>,
    rtp_port: u16,
) -> Seq<char> {
    let ports = text::decimal(rtp_port as nat) + "-"@ + text::decimal((rtp_port + 1) as nat);
    match header_value(headers, "Transport"@) {
        Some(t) => if text::occurs(t, "client_port="@) {
            t
        } else {
            t + ";server_port="@ + ports
        },
        None => "RTP/AVP/UDP;unicast;client_port="@ + ports + ";server_port="@ + ports,
    }
}

/// Whether a `SETUP` request names the client's port.
pub open spec fn names_client_port(headers: Seq<(Seq<char>, Seq<char>)>) -> bool {
    header_value(headers, "Transport"@) matches Some(t) && text::occurs(t, "client_port="@)
}

/// The answer to `SETUP` within the session `sid`.
pub open spec fn setup_reply(
    headers: Seq<(Seq<char>, Seq<char>)>,
    cseq: Seq<char>,
    rtp_port: u16,
    sid: Seq<char>,
) -> Seq<char> {
    response(
        cseq,
        200,
        "OK"@,
        seq![
            "Session: "@ + sid + ";timeout=60"@,
            "Transport: "@ + transport_for(headers, rtp_port),
        ],
        seq![],
    )
}

/// Append `rtp_port` and the port after it, with a hyphen between them.
fn push_ports(out: &mut String, rtp_port: u16)
    requires
        rtp_port < u16::MAX,
    ensures
        final(out)@ == old(out)@ + (text::decimal(rtp_port as nat) + "-"@ + text::decimal(
            (rtp_port + 1) as nat,
        )),
{
    text::push_decimal(out, rtp_port as u64);
    out.append("-");
    text::push_decimal(out, (rtp_port + 1) as u64);
    assert(out@ =~= old(out)@ + (text::decimal(rtp_port as nat) + "-"@ + text::decimal(
        (rtp_port + 1) as nat,
    )));
}

/// `SETUP` with the ID `fresh` for a session that is not there yet.
pub fn setup_with_id(
    req: &RtspRequest,
    cseq: &str,
    rtp_port: u16,
    session_id: &mut Option<String>,
    fresh: u64,
) -> (out: String)
    requires
        rtp_port < u16::MAX || names_client_port(req@.headers),
    ensures
        ({
            let sid = match text::opt_text(*old(session_id)) {
                Some(s) => s,
                None => session_text(fresh),
            };
            &&& out@ == setup_reply(req@.headers, cseq@, rtp_port, sid)
            &&& text::opt_text(*final(session_id)) == Some(sid)
        }),
{
    let sid: String = match session_id {
        Some(s) => s.clone(),
        None => {
            let mut s = String::new();
            text::push_hex(&mut s, fresh, 16);
            assert(s@ =~= session_text(fresh));
            s
        },
    };
    let transport: String = match req.header("Transport") {
        Some(t) => if text::contains(t, "client_port=") {
            t.to_owned()
        } else {
            let mut line = t.to_owned();
            line.append(";server_port=");
            push_ports(&mut line, rtp_port);
            line
        },
        None => {
            let mut line = "RTP/AVP/UDP;unicast;client_port=".to_owned();
            push_ports(&mut line, rtp_port);
            line.append(";server_port=");
            push_ports(&mut line, rtp_port);
            line
        },
    };
    let mut session_header = "Session: ".to_owned();
    session_header.append(sid.as_str());
    session_header.append(";timeout=60");
    let mut transport_header = "Transport: ".to_owned();
    transport_header.append(transport.as_str());
    let headers: [&str; 2] = [session_header.as_str(), transport_header.as_str()];
    assert(text::str_texts(headers@) =~= seq![session_header@, transport_header@]);
    let out = rtsp_response(cseq, 200, "OK", Some(&headers), None);
    *session_id = Some(sid);
    out
}

/// M6, `SETUP`: agree on a transport, and draw the ID of a session where there is
/// none yet.
pub fn handle_setup(
    req: &RtspRequest,
    cseq: &str,
    rtp_port: u16,
    session_id: &mut Option<String>,
) -> (out: String)
    requires
        rtp_port < u16::MAX || names_client_port(req@.headers),
    ensures
        exists|id: u64|
            {
                let sid = match text::opt_text(*old(session_id)) {
                    Some(s) => s,
                    None => #[trigger] session_text(id),
                };
                &&& out@ == setup_reply(req@.headers, cseq@, rtp_port, sid)
                &&& text::opt_text(*final(session_id)) == Some(sid)
                &&& *old(session_id) is None ==> is_drawn(id)
            },
{
    let fresh: u64 = if session_id.is_none() {
        rand_session_id()
    } else {
        0
    };
    let out = setup_with_id(req, cseq, rtp_port, session_id, fresh);
    assert(session_text(fresh) == session_text(fresh));
    out
}

/// M7, `PLAY`: acknowledge that streaming begins.
pub fn handle_play(cseq: &str, session_id: &mut Option<String>) -> (out: String)
    ensures
        out@ == session_reply(cseq@, text::opt_text(*old(session_id))),
        *final(session_id) == *old(session_id),
{
    acknowledge(cseq, session_id)
}

/// The answer to `TEARDOWN`.
pub open spec fn teardown_reply(cseq: Seq<char>) -> Seq<char> {
    response(cseq, 200, "OK"@, seq![], seq![])
}

/// `TEARDOWN`: end the session.
pub fn handle_teardown(cseq: &str, session_id: &mut Option<String>) -> (out: String)
    ensures
        out@ == teardown_reply(cseq@),
        *final(session_id) is None,
{
    *session_id = None;
    rtsp_response(cseq, 200, "OK", None, None)
}

// ---------------------------------------------------------------------------
// Dispatch
// ---------------------------------------------------------------------------

/// The answer to a request and the session after it, where `fresh` is the ID
/// that a new session gets.
pub open spec fn answered(
    req: RequestView,
    cseq: Seq<char>,
    rtp_port: u16,
    session: Option<Seq<char>>,
    fresh: Seq<char>,
) -> (Seq<char>, Option<Seq<char>>) {
    if req.method == "OPTIONS"@ {
        (options_reply(cseq), session)
    } else if req.method == "GET_PARAMETER"@ {
        (get_parameter_reply(req.body, cseq, rtp_port, session), session)
    } else if req.method == "SET_PARAMETER"@ {
        (session_reply(cseq, session), session)
    } else if req.method == "SETUP"@ {
        let sid = match session {
            Some(s) => s,
            None => fresh,
        };
        (setup_reply(req.headers, cseq, rtp_port, sid), Some(sid))
    } else if req.method == "PLAY"@ {
        (session_reply(cseq, session), session)
    } else if req.method == "TEARDOWN"@ {
        (teardown_reply(cseq), None)
    } else {
        (response(cseq, 501, "Not Implemented"@, seq![], seq![]), session)
    }
}

/// Whether the answer to a request names the RTCP port, the one after the RTP
/// port.
pub open spec fn names_rtcp_port(req: RequestView) -> bool {
    ||| req.method == "GET_PARAMETER"@ && asks_rtp_ports(req.body)
    ||| req.method == "SETUP"@ && !names_client_port(req.headers)
}

impl RtspRequest {
    /// Whether the answer names the RTCP port, so that there has to be a port
    /// after the RTP port.
    pub fn needs_rtcp_port(&self) -> (r: bool)
        ensures
            r == names_rtcp_port(self@),
    {
        if text::same(self.method.as_str(), "GET_PARAMETER") {
            proof {
                reveal_strlit("GET_PARAMETER");
                reveal_strlit("SETUP");
            }
            let body = text::trim(text::chars_of(self.body.as_str()).as_slice());
            let lines = text::lines(body.as_slice());
            let ghost all = queried(self@.body);
            for i in 0..lines.len()
                invariant
                    all == text::rows(lines@),
                    all == queried(self@.body),
                    self@.method == "GET_PARAMETER"@,
                    forall|j: int|
                        0 <= j < i ==> #[trigger] text::trimmed(all[j])
                            != "wfd_client_rtp_ports"@,
            {
                let param = text::text_of(text::trim(lines[i].as_slice()).as_slice());
                assert(all[i as int] == lines@[i as int]@);
                if text::same(param.as_str(), "wfd_client_rtp_ports") {
                    assert(text::trimmed(queried(self@.body)[i as int])
                        == "wfd_client_rtp_ports"@);
                    return true;
                }
            }
            assert("GET_PARAMETER"@.len() != "SETUP"@.len());
            false
        } else if text::same(self.method.as_str(), "SETUP") {
            match self.header("Transport") {
                Some(t) => !text::contains(t, "client_port="),
                None => true,
            }
        } else {
            false
        }
    }
}

/// Answer a request.
pub fn dispatch(
    req: &RtspRequest,
    cseq: &str,
    rtp_port: u16,
    session_id: &mut Option<String>,
) -> (out: String)
    requires
        rtp_port < u16::MAX || !names_rtcp_port(req@),
    ensures
        exists|id: u64|
            {
                &&& (out@, text::opt_text(*final(session_id))) == answered(
                    req@,
                    cseq@,
                    rtp_port,
                    text::opt_text(*old(session_id)),
                    #[trigger] session_text(id),
                )
                &&& req@.method == "SETUP"@ && *old(session_id) is None ==> is_drawn(id)
            },
{
    let method = req.method.as_str();
    let ghost any_id = session_text(0);
    proof {
        reveal_strlit("OPTIONS");
        reveal_strlit("GET_PARAMETER");
        reveal_strlit("SET_PARAMETER");
        reveal_strlit("SETUP");
        assert("SETUP"@.len() == 5);
    }
    if text::same(method, "OPTIONS") {
        handle_options(cseq)
    } else if text::same(method, "GET_PARAMETER") {
        handle_get_parameter(req, cseq, rtp_port, session_id)
    } else if text::same(method, "SET_PARAMETER") {
        handle_set_parameter(req, cseq, session_id)
    } else if text::same(method, "SETUP") {
        handle_setup(req, cseq, rtp_port, session_id)
    } else if text::same(method, "PLAY") {
        handle_play(cseq, session_id)
    } else if text::same(method, "TEARDOWN") {
        handle_teardown(cseq, session_id)
    } else {
        rtsp_response(cseq, 501, "Not Implemented", None, None)
    }
}

} // verus!
