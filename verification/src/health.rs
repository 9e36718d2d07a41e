//! HTTP health endpoint: the state of each subsystem as a JSON object.
//!
//! `GET /health` is answered with `200 OK` and a body such as
//!
//! ```text
//! {"p2p":1,"p2p_label":"discovering","rtsp":0,"rtsp_label":"idle","video":0,"video_label":"idle"}
//! ```
//!
//! | Code | Label | Meaning |
//! |------|-------|---------|
//! | 0 | `idle` | Subsystem inactive or not yet started |
//! | 1 | `discovering` | P2P discovery active |
//! | 2 | `connected` | RTSP session established |
//! | 3 | `playing` | Streaming, GStreamer pipeline running |

use std::sync::atomic::{AtomicU8, Ordering};

use vstd::prelude::*;

use crate::startup;
use crate::text;

verus! {

/// Subsystem is inactive or not yet initialised.
pub const STATE_IDLE: u8 = 0;

/// P2P discovery is running (Wi-Fi Direct Find and Listen).
pub const STATE_P2P_DISCOVERING: u8 = 1;

/// RTSP session has been established (M6 `SETUP` received).
pub const STATE_RTSP_CONNECTED: u8 = 2;

/// Streaming is active (M7 `PLAY` received, or the pipeline is playing).
pub const STATE_PLAYING: u8 = 3;

/// State shared between the P2P, RTSP and video tasks and the health endpoint.
/// Each subsystem stores one of the `STATE_*` codes.
pub struct AppState {
    /// Current Wi-Fi Direct state.
    pub p2p: AtomicU8,
    /// Current RTSP session state.
    pub rtsp: AtomicU8,
    /// Current video pipeline state.
    pub video: AtomicU8,
}

/// An atomic made by `make` from a state code.
fn made_with<F: Fn(u8) -> AtomicU8>(make: F, code: u8) -> (a: AtomicU8)
    requires
        call_requires(make, (code,)),
    ensures
        call_ensures(make, (code,), a),
{
    make(code)
}

/// The state code that `read` finds in an atomic.
fn found_by<F: Fn(&AtomicU8, Ordering) -> u8>(read: F, a: &AtomicU8, order: Ordering) -> (code:
    u8)
    requires
        call_requires(read, (a, order)),
    ensures
        call_ensures(read, (a, order), code),
{
    read(a, order)
}

impl Default for AppState {
    /// Every subsystem starts as [`STATE_IDLE`]: each atomic is one that
    /// `AtomicU8::new` makes of that code.
    fn default() -> (s: Self)
        ensures
            call_ensures(AtomicU8::new, (STATE_IDLE,), s.p2p),
            call_ensures(AtomicU8::new, (STATE_IDLE,), s.rtsp),
            call_ensures(AtomicU8::new, (STATE_IDLE,), s.video),
    {
        AppState {
            p2p: made_with(AtomicU8::new, STATE_IDLE),
            rtsp: made_with(AtomicU8::new, STATE_IDLE),
            video: made_with(AtomicU8::new, STATE_IDLE),
        }
    }
}

/// The label of a state code.
pub open spec fn label(state: u8) -> Seq<char> {
    if state == STATE_IDLE {
        "idle"@
    } else if state == STATE_P2P_DISCOVERING {
        "discovering"@
    } else if state == STATE_RTSP_CONNECTED {
        "connected"@
    } else if state == STATE_PLAYING {
        "playing"@
    } else {
        "unknown"@
    }
}

/// The label of a state code.
pub fn state_label(state: u8) -> (r: &'static str)
    ensures
        r@ == label(state),
{
    if state == STATE_IDLE {
        "idle"
    } else if state == STATE_P2P_DISCOVERING {
        "discovering"
    } else if state == STATE_RTSP_CONNECTED {
        "connected"
    } else if state == STATE_PLAYING {
        "playing"
    } else {
        "unknown"
    }
}

/// The JSON object for three state codes.
pub open spec fn state_json(p2p: u8, rtsp: u8, video: u8) -> Seq<char> {
    "{\"p2p\":"@ + text::decimal(p2p as nat) + ",\"p2p_label\":\""@ + label(p2p) + "\",\"rtsp\":"@
        + text::decimal(rtsp as nat) + ",\"rtsp_label\":\""@ + label(rtsp) + "\",\"video\":"@
        + text::decimal(video as nat) + ",\"video_label\":\""@ + label(video) + "\"}"@
}

/// Render three state codes as a compact JSON object.
pub fn render_state(p2p: u8, rtsp: u8, video: u8) -> (out: String)
    ensures
        out@ == state_json(p2p, rtsp, video),
{
    let mut out = "{\"p2p\":".to_owned();
    text::push_decimal(&mut out, p2p as u64);
    out.append(",\"p2p_label\":\"");
    out.append(state_label(p2p));
    out.append("\",\"rtsp\":");
    text::push_decimal(&mut out, rtsp as u64);
    out.append(",\"rtsp_label\":\"");
    out.append(state_label(rtsp));
    out.append("\",\"video\":");
    text::push_decimal(&mut out, video as u64);
    out.append(",\"video_label\":\"");
    out.append(state_label(video));
    out.append("\"}");
    out
}

impl AppState {
    /// Serialise the current state to a compact JSON object: under the name of
    /// each subsystem, a code that a load of its atomic gives.
    pub fn to_json(&self) -> (out: String)
        ensures
            exists|p2p: u8, rtsp: u8, video: u8|
                {
                    &&& call_ensures(AtomicU8::load, (&self.p2p, Ordering::Relaxed), p2p)
                    &&& call_ensures(AtomicU8::load, (&self.rtsp, Ordering::Relaxed), rtsp)
                    &&& call_ensures(AtomicU8::load, (&self.video, Ordering::Relaxed), video)
                    &&& out@ == #[trigger] state_json(p2p, rtsp, video)
                },
    {
        let p2p = found_by(AtomicU8::load, &self.p2p, Ordering::Relaxed);
        let rtsp = found_by(AtomicU8::load, &self.rtsp, Ordering::Relaxed);
        let video = found_by(AtomicU8::load, &self.video, Ordering::Relaxed);
        render_state(p2p, rtsp, video)
    }
}

/// Where the endpoint listens.
pub enum Endpoint {
    /// The endpoint is disabled; its task waits without end.
    Disabled,
    /// The endpoint listens on this address.
    Listen { addr: String },
}

/// Where the endpoint listens: a port of 0 disables it.
pub fn endpoint(port: u16) -> (e: Endpoint)
    ensures
        match e {
            Endpoint::Disabled => port == 0,
            Endpoint::Listen { addr } => port != 0 && addr@ == startup::any_interface(port),
        },
{
    if port == 0 {
        Endpoint::Disabled
    } else {
        Endpoint::Listen { addr: startup::listen_address(port) }
    }
}

/// The first line of a request, without surrounding white space; empty where
/// the bytes are not UTF-8.
pub open spec fn request_line(request: Seq<u8>) -> Seq<char> {
    let lines = text::lines_of(text::decoded(request));
    if lines.len() == 0 {
        seq![]
    } else {
        text::trimmed(lines[0])
    }
}

/// The first line of a request.
pub fn first_line(request: &[u8]) -> (out: String)
    ensures
        out@ == request_line(request@),
{
    let chars = text::chars_of(text::decode(request));
    let lines = text::lines(chars.as_slice());
    if lines.len() == 0 {
        String::new()
    } else {
        assert(text::rows(lines@)[0] == lines@[0]@);
        text::text_of(text::trim(lines[0].as_slice()).as_slice())
    }
}

/// Whether a request asks for the health report.
pub open spec fn asks_health(line: Seq<char>) -> bool {
    text::occurs_at(line, "GET /health"@, 0)
}

/// The answer to a request whose first line is `line`, with the report `body`.
pub open spec fn http_reply(line: Seq<char>, body: Seq<char>) -> Seq<char> {
    if asks_health(line) {
        "HTTP/1.1 200 OK\r\nContent-Type: application/json\r\nContent-Length: "@ + text::decimal(
            text::byte_len(body),
        ) + "\r\nConnection: close\r\n\r\n"@ + body
    } else {
        "HTTP/1.1 404 Not Found\r\nContent-Length: 0\r\nConnection: close\r\n\r\n"@
    }
}

/// Answer a request whose first line is `line`, with the report `body`.
pub fn http_response(line: &str, body: &str) -> (out: String)
    ensures
        out@ == http_reply(line@, body@),
{
    if text::starts_with(line, "GET /health") {
        let mut out =
            "HTTP/1.1 200 OK\r\nContent-Type: application/json\r\nContent-Length: ".to_owned();
        text::push_decimal(&mut out, body.as_bytes().len() as u64);
        out.append("\r\nConnection: close\r\n\r\n");
        out.append(body);
        out
    } else {
        "HTTP/1.1 404 Not Found\r\nContent-Length: 0\r\nConnection: close\r\n\r\n".to_owned()
    }
}

impl AppState {
    /// Answer a request to the health endpoint with the current state, as
    /// [`AppState::to_json`] gives it.
    pub fn respond(&self, request: &[u8]) -> (out: String)
        ensures
            exists|p2p: u8, rtsp: u8, video: u8|
                {
                    &&& call_ensures(AtomicU8::load, (&self.p2p, Ordering::Relaxed), p2p)
                    &&& call_ensures(AtomicU8::load, (&self.rtsp, Ordering::Relaxed), rtsp)
                    &&& call_ensures(AtomicU8::load, (&self.video, Ordering::Relaxed), video)
                    &&& out@ == http_reply(
                        request_line(request@),
                        #[trigger] state_json(p2p, rtsp, video),
                    )
                },
    {
        let line = first_line(request);
        let body = self.to_json();
        http_response(line.as_str(), body.as_str())
    }
}

// ---------------------------------------------------------------------------
// Laws
// ---------------------------------------------------------------------------

/// The four states have their labels, and every other code is unknown.
pub proof fn law_state_label(state: u8, r: &str)
    requires
        call_ensures(state_label, (state,), r),
    ensures
        state == 0 ==> r@ == "idle"@,
        state == 1 ==> r@ == "discovering"@,
        state == 2 ==> r@ == "connected"@,
        state == 3 ==> r@ == "playing"@,
        state > 3 ==> r@ == "unknown"@,
{
}

/// A report shows each subsystem under its own name, as a number that reads
/// back as its code and with that code's label.
pub proof fn law_report(p2p: u8, rtsp: u8, video: u8, out: String)
    requires
        call_ensures(render_state, (p2p, rtsp, video), out),
    ensures
        exists|a: Seq<char>, b: Seq<char>, c: Seq<char>|
            {
                &&& text::unsigned(a, 255) == Some(p2p as nat)
                &&& text::unsigned(b, 255) == Some(rtsp as nat)
                &&& text::unsigned(c, 255) == Some(video as nat)
                &&& out@ == #[trigger] ("{\"p2p\":"@ + a + ",\"p2p_label\":\""@ + label(p2p)
                    + "\",\"rtsp\":"@ + b + ",\"rtsp_label\":\""@ + label(rtsp)
                    + "\",\"video\":"@ + c + ",\"video_label\":\""@ + label(video) + "\"}"@)
            },
{
    let a = text::decimal(p2p as nat);
    let b = text::decimal(rtsp as nat);
    let c = text::decimal(video as nat);
    text::law_decimal_round_trip(p2p as nat, 255);
    text::law_decimal_round_trip(rtsp as nat, 255);
    text::law_decimal_round_trip(video as nat, 255);
    assert(out@ == "{\"p2p\":"@ + a + ",\"p2p_label\":\""@ + label(p2p) + "\",\"rtsp\":"@ + b
        + ",\"rtsp_label\":\""@ + label(rtsp) + "\",\"video\":"@ + c + ",\"video_label\":\""@
        + label(video) + "\"}"@);
}

/// A request is answered with the report exactly where its line begins with
/// `GET /health`, and the length declared is that of the report; any other
/// request is answered without a body.
pub proof fn law_http_response(line: &str, body: &str, out: String)
    requires
        call_ensures(http_response, (line, body), out),
    ensures
        text::occurs_at(line@, "GET /health"@, 0) ==> exists|n: Seq<char>|
            {
                &&& text::unsigned(n, vstd::utf8::encode_utf8(body@).len()) == Some(
                    vstd::utf8::encode_utf8(body@).len(),
                )
                &&& out@ == #[trigger] (
                "HTTP/1.1 200 OK\r\nContent-Type: application/json\r\nContent-Length: "@ + n
                    + "\r\nConnection: close\r\n\r\n"@ + body@)
            },
        !text::occurs_at(line@, "GET /health"@, 0) ==> out@
            == "HTTP/1.1 404 Not Found\r\nContent-Length: 0\r\nConnection: close\r\n\r\n"@,
{
    if text::occurs_at(line@, "GET /health"@, 0) {
        let size = vstd::utf8::encode_utf8(body@).len();
        let n = text::decimal(size);
        text::law_decimal_round_trip(size, size);
        assert(out@ == "HTTP/1.1 200 OK\r\nContent-Type: application/json\r\nContent-Length: "@
            + n + "\r\nConnection: close\r\n\r\n"@ + body@);
    }
}

/// The first line of a request is what stands before its first line feed,
/// trimmed; a request that is no text has none.
pub proof fn law_first_line(request: &[u8], out: String, line: Seq<char>, more: Seq<char>)
    requires
        call_ensures(first_line, (request,), out),
        !line.contains('\n'),
        request@ == vstd::utf8::encode_utf8(line + seq!['\n'] + more),
    ensures
        out@ == text::trimmed(
            if line.len() > 0 && line.last() == '\r' {
                line.drop_last()
            } else {
                line
            },
        ),
{
    text::lemma_decoded_encoding(line + seq!['\n'] + more);
    text::law_lines(line, more);
}

/// A request without a line feed is its own first line, trimmed.
pub proof fn law_only_line_of_request(request: &[u8], out: String, line: Seq<char>)
    requires
        call_ensures(first_line, (request,), out),
        !line.contains('\n'),
        line.len() > 0,
        request@ == vstd::utf8::encode_utf8(line),
    ensures
        out@ == text::trimmed(line),
{
    text::lemma_decoded_encoding(line);
    text::law_lines(line, seq![]);
}

/// A request that is no text, or holds nothing, has an empty first line.
pub proof fn law_no_first_line(request: &[u8], out: String)
    requires
        call_ensures(first_line, (request,), out),
        !vstd::utf8::valid_utf8(request@) || request@.len() == 0,
    ensures
        out@.len() == 0,
{
    if request@.len() == 0 {
        assert(request@ =~= vstd::utf8::encode_utf8(seq![]));
        text::lemma_decoded_encoding(seq![]);
    }
}

/// The endpoint is disabled exactly where its port is 0, and listens on its
/// port otherwise.
pub proof fn law_endpoint(port: u16, e: Endpoint)
    requires
        call_ensures(endpoint, (port,), e),
    ensures
        e is Disabled <==> port == 0,
        e matches Endpoint::Listen { addr } ==> exists|n: Seq<char>|
            text::unsigned(n, 65_535) == Some(port as nat) && addr@ == #[trigger] ("0.0.0.0:"@
                + n),
{
    if let Endpoint::Listen { addr } = e {
        let n = text::decimal(port as nat);
        text::law_decimal_round_trip(port as nat, 65_535);
        assert(addr@ == "0.0.0.0:"@ + n);
    }
}

/// A request for the health report is answered with the three codes that the
/// subsystems' atomics give, and any other request is not.
pub proof fn law_respond(s: &AppState, request: &[u8], line: &str, out: String)
    requires
        call_ensures(AppState::respond, (s, request), out),
        line@ == request_line(request@),
    ensures
        !text::occurs_at(line@, "GET /health"@, 0) ==> out@
            == "HTTP/1.1 404 Not Found\r\nContent-Length: 0\r\nConnection: close\r\n\r\n"@,
        text::occurs_at(line@, "GET /health"@, 0) ==> exists|
            p2p: u8,
            rtsp: u8,
            video: u8,
            n: Seq<char>,
        |
            {
                &&& call_ensures(AtomicU8::load, (&s.p2p, Ordering::Relaxed), p2p)
                &&& call_ensures(AtomicU8::load, (&s.rtsp, Ordering::Relaxed), rtsp)
                &&& call_ensures(AtomicU8::load, (&s.video, Ordering::Relaxed), video)
                &&& out@ == #[trigger] (
                "HTTP/1.1 200 OK\r\nContent-Type: application/json\r\nContent-Length: "@ + n
                    + "\r\nConnection: close\r\n\r\n"@ + state_json(p2p, rtsp, video))
            },
{
    if text::occurs_at(line@, "GET /health"@, 0) {
        let (p2p, rtsp, video) = choose|p2p: u8, rtsp: u8, video: u8|
            {
                &&& call_ensures(AtomicU8::load, (&s.p2p, Ordering::Relaxed), p2p)
                &&& call_ensures(AtomicU8::load, (&s.rtsp, Ordering::Relaxed), rtsp)
                &&& call_ensures(AtomicU8::load, (&s.video, Ordering::Relaxed), video)
                &&& out@ == http_reply(request_line(request@), #[trigger] state_json(p2p, rtsp, video))
            };
        let n = text::decimal(text::byte_len(state_json(p2p, rtsp, video)));
        assert(out@ == "HTTP/1.1 200 OK\r\nContent-Type: application/json\r\nContent-Length: "@ + n
            + "\r\nConnection: close\r\n\r\n"@ + state_json(p2p, rtsp, video));
    }
}

/// Every subsystem starts with code 0, that of an idle one.
pub proof fn law_starts_idle(s: AppState)
    requires
        call_ensures(AppState::default, (), s),
    ensures
        call_ensures(AtomicU8::new, (0u8,), s.p2p),
        call_ensures(AtomicU8::new, (0u8,), s.rtsp),
        call_ensures(AtomicU8::new, (0u8,), s.video),
        label(0) == "idle"@,
{
}

/// The report of the current state shows, for each subsystem, a code that its
/// own atomic gives.
pub proof fn law_to_json(s: &AppState, out: String)
    requires
        call_ensures(AppState::to_json, (s,), out),
    ensures
        exists|p2p: u8, rtsp: u8, video: u8, a: Seq<char>, b: Seq<char>, c: Seq<char>|
            {
                &&& call_ensures(AtomicU8::load, (&s.p2p, Ordering::Relaxed), p2p)
                &&& call_ensures(AtomicU8::load, (&s.rtsp, Ordering::Relaxed), rtsp)
                &&& call_ensures(AtomicU8::load, (&s.video, Ordering::Relaxed), video)
                &&& reads_as(a, p2p)
                &&& reads_as(b, rtsp)
                &&& reads_as(c, video)
                &&& out@ == #[trigger] ("{\"p2p\":"@ + a + ",\"p2p_label\":\""@ + label(p2p)
                    + "\",\"rtsp\":"@ + b + ",\"rtsp_label\":\""@ + label(rtsp)
                    + "\",\"video\":"@ + c + ",\"video_label\":\""@ + label(video) + "\"}"@)
            },
{
    let (p2p, rtsp, video) = choose|p2p: u8, rtsp: u8, video: u8|
        {
            &&& call_ensures(AtomicU8::load, (&s.p2p, Ordering::Relaxed), p2p)
            &&& call_ensures(AtomicU8::load, (&s.rtsp, Ordering::Relaxed), rtsp)
            &&& call_ensures(AtomicU8::load, (&s.video, Ordering::Relaxed), video)
            &&& out@ == #[trigger] state_json(p2p, rtsp, video)
        };
    let a = lemma_code_reads_back(p2p);
    let b = lemma_code_reads_back(rtsp);
    let c = lemma_code_reads_back(video);
    assert(out@ == "{\"p2p\":"@ + a + ",\"p2p_label\":\""@ + label(p2p) + "\",\"rtsp\":"@ + b
        + ",\"rtsp_label\":\""@ + label(rtsp) + "\",\"video\":"@ + c + ",\"video_label\":\""@
        + label(video) + "\"}"@);
}

/// Whether a text is a number that reads as a code.
pub open spec fn reads_as(n: Seq<char>, code: u8) -> bool {
    text::unsigned(n, 255) == Some(code as nat)
}

/// A code in decimal reads back as the code.
proof fn lemma_code_reads_back(code: u8) -> (n: Seq<char>)
    ensures
        n == text::decimal(code as nat),
        reads_as(n, code),
{
    text::law_decimal_round_trip(code as nat, 255);
    text::decimal(code as nat)
}

} // verus!
