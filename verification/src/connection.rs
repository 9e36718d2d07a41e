//! One RTSP connection: from the bytes received to the messages sent.

use std::ops::Deref;

use bytes::BytesMut;

use vstd::prelude::*;

use crate::buffer;
use crate::config::Config;
use crate::health;
use crate::rtsp;
use crate::rtsp::RtspRequest;
use crate::text;

verus! {

/// Largest message that a connection is willing to hold (64 KiB).
pub const MAX_MSG_BYTES: usize = 65_536;

// ---------------------------------------------------------------------------
// Framing
// ---------------------------------------------------------------------------

/// The number of body bytes that follow a message head.
pub open spec fn body_size(head: Seq<char>) -> nat {
    match rtsp::parsed(head) {
        Some(q) => rtsp::declared_length(q.headers),
        None => 0,
    }
}

/// The head of a message: its text up to and including the first empty line.
pub open spec fn head_of(t: Seq<char>) -> Seq<char> {
    t.take((choose|i: int| text::first_at(t, "\r\n\r\n"@, i)) + 4)
}

/// The message that `bytes` begin with, where all of it is there: a head, and
/// as many body bytes as the head declares.
pub open spec fn framed(bytes: Seq<u8>) -> Option<Seq<char>> {
    let t = text::decoded(bytes);
    if text::occurs(t, "\r\n\r\n"@) {
        let head = head_of(t);
        let size = text::byte_len(head) + body_size(head);
        if size <= bytes.len() && vstd::utf8::valid_utf8(bytes.take(size as int)) {
            Some(text::decoded(bytes.take(size as int)))
        } else {
            None
        }
    } else {
        None
    }
}

/// There is one first place only.
proof fn lemma_first_at_is_unique(t: Seq<char>, needle: Seq<char>, i: int, j: int)
    requires
        text::first_at(t, needle, i),
        text::first_at(t, needle, j),
    ensures
        i == j,
{
    if i < j {
        assert(!text::occurs_at(t, needle, i));
    }
    if j < i {
        assert(!text::occurs_at(t, needle, j));
    }
}

/// The head, where the place of the empty line is known.
proof fn lemma_head_of(t: Seq<char>, i: int)
    requires
        text::first_at(t, "\r\n\r\n"@, i),
    ensures
        head_of(t) == t.take(i + 4),
        text::occurs(t, "\r\n\r\n"@),
        i + 4 <= t.len(),
{
    reveal_strlit("\r\n\r\n");
    let k = choose|k: int| text::first_at(t, "\r\n\r\n"@, k);
    lemma_first_at_is_unique(t, "\r\n\r\n"@, i, k);
    assert(text::occurs_at(t, "\r\n\r\n"@, i));
}

/// The message that `bytes` begin with, where all of it is there.
pub fn frame(bytes: &[u8]) -> (r: Option<String>)
    ensures
        text::opt_text(r) == framed(bytes@),
{
    let chars = text::chars_of(text::decode(bytes));
    let blank = text::chars_of("\r\n\r\n");
    let i = match text::find(chars.as_slice(), blank.as_slice()) {
        Some(i) => i,
        None => {
            return None;
        },
    };
    proof {
        lemma_head_of(chars@, i as int);
        assert(chars@.len() == chars.len());
    }
    let head = text::text_of(text::chars_between(chars.as_slice(), 0, i + 4).as_slice());
    assert(head@ == head_of(text::decoded(bytes@)));
    let length: usize = match RtspRequest::parse(head.as_str()) {
        Some(q) => q.content_length(),
        None => 0,
    };
    let head_bytes = head.as_str().as_bytes().len();
    if head_bytes > bytes.len() || length > bytes.len() - head_bytes {
        return None;
    }
    let size = head_bytes + length;
    let message = vstd::slice::slice_subrange(bytes, 0, size);
    assert(message@ == bytes@.take(size as int));
    match std::str::from_utf8(message) {
        Ok(s) => {
            proof {
                vstd::utf8::encode_utf8_decode_utf8(s@);
            }
            Some(s.to_owned())
        },
        Err(_) => None,
    }
}

// ---------------------------------------------------------------------------
// Connection state
// ---------------------------------------------------------------------------

/// The state of one connection.
pub struct Connection {
    buf: BytesMut,
    session_id: Option<String>,
    awaiting_reply: bool,
}

/// What a connection holds.
#[verifier::ext_equal]
pub struct ConnectionView {
    /// Bytes received that are not part of a complete message yet.
    pub pending: Seq<u8>,
    /// The session ID, where a session is open.
    pub session: Option<Seq<char>>,
    /// Whether a request of the sink is still unanswered.
    pub awaiting_reply: bool,
}

impl View for Connection {
    type V = ConnectionView;

    closed spec fn view(&self) -> ConnectionView {
        ConnectionView {
            pending: buffer::contents(self.buf),
            session: text::opt_text(self.session_id),
            awaiting_reply: self.awaiting_reply,
        }
    }
}

impl ConnectionView {
    /// A connection never holds more than the largest message.
    pub open spec fn wf(self) -> bool {
        self.pending.len() <= MAX_MSG_BYTES
    }
}

/// What became of the bytes of one read.
pub enum Intake {
    /// The peer closed the connection.
    Closed,
    /// The bytes held exceed the largest message; the connection is to be closed.
    TooLarge,
    /// No message is complete yet.
    More,
    /// A message that is no request; it was dropped.
    Ignored,
    /// The peer answered a request of the sink.
    Reply,
    /// A request that is to be answered.
    Request(RtspRequest),
}

/// What became of the bytes of one read, with the request as a value.
#[verifier::ext_equal]
pub enum IntakeView {
    Closed,
    TooLarge,
    More,
    Ignored,
    Reply,
    Request(rtsp::RequestView),
}

impl View for Intake {
    type V = IntakeView;

    open spec fn view(&self) -> IntakeView {
        match self {
            Intake::Closed => IntakeView::Closed,
            Intake::TooLarge => IntakeView::TooLarge,
            Intake::More => IntakeView::More,
            Intake::Ignored => IntakeView::Ignored,
            Intake::Reply => IntakeView::Reply,
            Intake::Request(q) => IntakeView::Request(q@),
        }
    }
}

/// Whether a message answers a request, rather than being one.
pub open spec fn is_reply(message: Seq<char>) -> bool {
    text::occurs_at(message, "RTSP/"@, 0)
}

/// The connection after a read, and what became of the bytes.
pub open spec fn received(c: ConnectionView, chunk: Seq<u8>) -> (ConnectionView, IntakeView) {
    let pending = c.pending + chunk;
    if chunk.len() == 0 {
        (c, IntakeView::Closed)
    } else if pending.len() > MAX_MSG_BYTES {
        (c, IntakeView::TooLarge)
    } else {
        match framed(pending) {
            None => (ConnectionView { pending, ..c }, IntakeView::More),
            Some(message) => if c.awaiting_reply && is_reply(message) {
                (
                    ConnectionView { pending: seq![], awaiting_reply: false, ..c },
                    IntakeView::Reply,
                )
            } else {
                (
                    ConnectionView { pending: seq![], ..c },
                    match rtsp::parsed(message) {
                        Some(q) => IntakeView::Request(q),
                        None => IntakeView::Ignored,
                    },
                )
            },
        }
    }
}

/// The `CSeq` of a request, `0` where it has none.
pub open spec fn cseq_of(req: rtsp::RequestView) -> Seq<char> {
    match rtsp::header_value(req.headers, "CSeq"@) {
        Some(v) => v,
        None => "0"@,
    }
}

/// The RTSP subsystem's state after a request, where it changes it.
pub open spec fn state_after(method: Seq<char>) -> Option<u8> {
    if method == "SETUP"@ {
        Some(health::STATE_RTSP_CONNECTED)
    } else if method == "PLAY"@ {
        Some(health::STATE_PLAYING)
    } else if method == "TEARDOWN"@ {
        Some(health::STATE_IDLE)
    } else {
        None
    }
}

/// M2, the sink's own request, which follows the answer to M1.
pub open spec fn m2_request() -> Seq<char> {
    "GET_PARAMETER rtsp://localhost/wfd1.0 RTSP/1.0\r\nCSeq: 2\r\n\r\n"@
}

/// What is sent back for a request, and what changes with it.
pub struct Reply {
    /// The response.
    pub response: String,
    /// M2, to be sent right after the response.
    pub m2: Option<String>,
    /// New state of the RTSP subsystem, where it changes.
    pub rtsp_state: Option<u8>,
}

impl Connection {
    /// A connection on which nothing has been received.
    pub fn new() -> (c: Self)
        ensures
            c@ == (ConnectionView { pending: seq![], session: None, awaiting_reply: false }),
            c@.wf(),
    {
        Connection {
            buf: BytesMut::with_capacity(4096),
            session_id: None,
            awaiting_reply: false,
        }
    }

    /// Take in the bytes of one read; a read of no bytes means that the peer
    /// closed the connection.  What follows a complete message in the same read
    /// is dropped with it.
    pub fn receive(&mut self, chunk: &[u8]) -> (r: Intake)
        requires
            old(self)@.wf(),
        ensures
            (final(self)@, r@) == received(old(self)@, chunk@),
            final(self)@.wf(),
    {
        if chunk.len() == 0 {
            return Intake::Closed;
        }
        if chunk.len() > MAX_MSG_BYTES - self.buf.len() {
            return Intake::TooLarge;
        }
        self.buf.extend_from_slice(chunk);
        let message = match frame(self.buf.deref()) {
            Some(m) => m,
            None => {
                return Intake::More;
            },
        };
        self.buf.clear();
        if self.awaiting_reply && text::starts_with(message.as_str(), "RTSP/") {
            self.awaiting_reply = false;
            return Intake::Reply;
        }
        match RtspRequest::parse(message.as_str()) {
            Some(q) => Intake::Request(q),
            None => Intake::Ignored,
        }
    }

    /// Answer a request; `send_m2` tells whether M2 follows the answer to
    /// `OPTIONS`.
    pub fn answer(&mut self, req: &RtspRequest, rtp_port: u16, send_m2: bool) -> (r: Reply)
        requires
            rtp_port < u16::MAX || !rtsp::names_rtcp_port(req@),
        ensures
            exists|id: u64|
                {
                    &&& (r.response@, final(self)@.session) == rtsp::answered(
                        req@,
                        cseq_of(req@),
                        rtp_port,
                        old(self)@.session,
                        #[trigger] rtsp::session_text(id),
                    )
                    &&& req@.method == "SETUP"@ && old(self)@.session is None ==> rtsp::is_drawn(
                        id,
                    )
                },
            final(self)@.pending == old(self)@.pending,
            text::opt_text(r.m2) == (if send_m2 && req@.method == "OPTIONS"@ {
                Some(m2_request())
            } else {
                None
            }),
            final(self)@.awaiting_reply == (old(self)@.awaiting_reply || r.m2 is Some),
            r.rtsp_state == state_after(req@.method),
    {
        let cseq: &str = match req.header("CSeq") {
            Some(v) => v,
            None => "0",
        };
        let response = rtsp::dispatch(req, cseq, rtp_port, &mut self.session_id);
        let method = req.method.as_str();
        let m2 = if send_m2 && text::same(method, "OPTIONS") {
            self.awaiting_reply = true;
            Some(
                "GET_PARAMETER rtsp://localhost/wfd1.0 RTSP/1.0\r\nCSeq: 2\r\n\r\n".to_owned(),
            )
        } else {
            None
        };
        let rtsp_state = if text::same(method, "SETUP") {
            Some(health::STATE_RTSP_CONNECTED)
        } else if text::same(method, "PLAY") {
            Some(health::STATE_PLAYING)
        } else if text::same(method, "TEARDOWN") {
            Some(health::STATE_IDLE)
        } else {
            None
        };
        Reply { response, m2, rtsp_state }
    }
}

// ---------------------------------------------------------------------------
// Inactivity
// ---------------------------------------------------------------------------

impl IntakeView {
    /// Whether a read completed a message of the peer.
    pub open spec fn completes_message(self) -> bool {
        self is Ignored || self is Reply || self is Request
    }
}

impl Intake {
    /// Whether a read completed a message of the peer, which shows that the
    /// peer is alive.  Bytes of an incomplete message do not.
    pub fn is_message(&self) -> (r: bool)
        ensures
            r == self@.completes_message(),
    {
        match self {
            Intake::Ignored | Intake::Reply | Intake::Request(_) => true,
            Intake::Closed | Intake::TooLarge | Intake::More => false,
        }
    }
}

/// What becomes of a connection on which no message came for a while.
#[derive(Clone, Copy, PartialEq, Eq, Structural)]
pub enum Patience {
    /// Wait for this many seconds more.
    Wait { secs: u64 },
    /// The peer is taken for dead; the connection is to be closed.
    Close,
}

/// Judge a connection on which no message came for `quiet_secs` seconds: it is
/// closed once the keep-alive window is over.
pub fn patience(cfg: &Config, quiet_secs: u64) -> (p: Patience)
    ensures
        p == if quiet_secs < cfg.rtsp_keepalive_secs {
            Patience::Wait { secs: (cfg.rtsp_keepalive_secs - quiet_secs) as u64 }
        } else {
            Patience::Close
        },
{
    if quiet_secs < cfg.rtsp_keepalive_secs {
        Patience::Wait { secs: cfg.rtsp_keepalive_secs - quiet_secs }
    } else {
        Patience::Close
    }
}

// ---------------------------------------------------------------------------
// Laws
// ---------------------------------------------------------------------------

/// Where a read leaves a message incomplete, it does not matter that the next
/// read came separately.
pub proof fn law_reads_can_be_split(c: ConnectionView, a: Seq<u8>, b: Seq<u8>)
    requires
        received(c, a).1 == IntakeView::More,
        b.len() > 0,
    ensures
        received(received(c, a).0, b).1 == received(c, a + b).1,
        received(c, a + b).1 != IntakeView::TooLarge ==> received(received(c, a).0, b).0
            == received(c, a + b).0,
{
    assert(c.pending + a + b =~= c.pending + (a + b));
}

/// Whether `head` is a message head: it ends with its first empty line.
pub open spec fn is_head(head: Seq<char>) -> bool {
    text::first_at(head, "\r\n\r\n"@, head.len() - 4)
}

/// Whether a head and a body make up a message: the head declares the body.
pub open spec fn is_message(head: Seq<char>, body: Seq<char>) -> bool {
    is_head(head) && body_size(head) == text::byte_len(body)
}

/// A text that begins with a message head has this head.
proof fn lemma_head_in_front(head: Seq<char>, t: Seq<char>)
    requires
        is_head(head),
        head.len() <= t.len(),
        t.take(head.len() as int) == head,
    ensures
        text::occurs(t, "\r\n\r\n"@),
        head_of(t) == head,
{
    reveal_strlit("\r\n\r\n");
    let n = "\r\n\r\n"@;
    let h = head.len() - 4;
    assert forall|j: int| 0 <= j <= h implies text::occurs_at(t, n, j) == text::occurs_at(
        head,
        n,
        j,
    ) by {
        assert(t.subrange(j, j + 4) =~= head.subrange(j, j + 4));
    }
    assert(text::first_at(t, n, h));
    lemma_head_of(t, h);
}

/// A complete message is taken, whatever text follows it.
pub proof fn law_complete_message_is_taken(head: Seq<char>, body: Seq<char>, more: Seq<char>)
    requires
        is_message(head, body),
    ensures
        framed(vstd::utf8::encode_utf8(head + body + more)) == Some(head + body),
{
    let t = head + body + more;
    let bytes = vstd::utf8::encode_utf8(t);
    text::lemma_decoded_encoding(t);
    assert(t.take(head.len() as int) =~= head);
    lemma_head_in_front(head, t);
    text::lemma_encoding_of_concat(head + body, more);
    text::lemma_encoding_of_concat(head, body);
    let size = text::byte_len(head) + body_size(head);
    assert(bytes.take(size as int) =~= vstd::utf8::encode_utf8(head + body));
    text::lemma_decoded_encoding(head + body);
}

/// A message is not taken before its last byte is there.
pub proof fn law_incomplete_message_waits(head: Seq<char>, body: Seq<char>, k: int)
    requires
        is_message(head, body),
        0 <= k < text::byte_len(head + body),
    ensures
        framed(vstd::utf8::encode_utf8(head + body).take(k)) is None,
{
    reveal_strlit("\r\n\r\n");
    let n = "\r\n\r\n"@;
    let m = head + body;
    let all = vstd::utf8::encode_utf8(m);
    let p = all.take(k);
    let t = text::decoded(p);
    if vstd::utf8::valid_utf8(p) && text::occurs(t, n) {
        let q = all.skip(k);
        text::lemma_decoded_encoding(m);
        assert(vstd::utf8::valid_utf8(q)) by {
            assert(all.subrange(0, k) =~= p);
            assert(all.subrange(k, all.len() as int) =~= q);
            if !vstd::utf8::valid_utf8(q) {
                vstd::utf8::partial_valid_partial_invalid_utf8(all, k);
            }
        }
        vstd::utf8::decode_utf8_encode_utf8(p);
        vstd::utf8::decode_utf8_encode_utf8(q);
        let rest = text::decoded(q);
        text::lemma_encoding_of_concat(t, rest);
        assert(p + q =~= all);
        text::lemma_encoding_determines_text(t + rest, m);
        assert(m == t + rest);
        // The place of the empty line is the same in `t` as in the message.
        let j = choose|j: int| text::occurs_at(t, n, j);
        let h = head.len() - 4;
        assert(m.subrange(j, j + 4) =~= t.subrange(j, j + 4));
        assert(text::occurs_at(m, n, j));
        if j < h {
            assert(head.subrange(j, j + 4) =~= m.subrange(j, j + 4));
            assert(text::occurs_at(head, n, j));
        }
        assert(t.take(head.len() as int) =~= head) by {
            assert(m.take(head.len() as int) =~= head);
        }
        lemma_head_in_front(head, t);
        text::lemma_encoding_of_concat(head, body);
    }
}

/// The bytes of a list of reads.
pub open spec fn all_bytes(chunks: Seq<Seq<u8>>) -> Seq<u8>
    decreases chunks.len(),
{
    if chunks.len() == 0 {
        seq![]
    } else {
        all_bytes(chunks.drop_last()) + chunks.last()
    }
}

/// The connection after a list of reads, and what became of the last one.
pub open spec fn after_reads(c: ConnectionView, chunks: Seq<Seq<u8>>) -> (
    ConnectionView,
    IntakeView,
)
    decreases chunks.len(),
{
    if chunks.len() == 0 {
        (c, IntakeView::More)
    } else {
        received(after_reads(c, chunks.drop_last()).0, chunks.last())
    }
}

/// The reads up to one of them hold no more bytes than all reads.
proof fn lemma_all_bytes_grow(chunks: Seq<Seq<u8>>, i: int)
    requires
        0 <= i <= chunks.len(),
    ensures
        all_bytes(chunks.take(i)).len() <= all_bytes(chunks).len(),
        all_bytes(chunks).take(all_bytes(chunks.take(i)).len() as int) == all_bytes(chunks.take(i)),
        i < chunks.len() && (forall|j: int| 0 <= j < chunks.len() ==> #[trigger] chunks[j].len() > 0)
            ==> all_bytes(chunks.take(i)).len() < all_bytes(chunks).len(),
    decreases chunks.len(),
{
    if i == chunks.len() {
        assert(chunks.take(i) =~= chunks);
        assert(all_bytes(chunks).take(all_bytes(chunks).len() as int) =~= all_bytes(chunks));
    } else {
        let init = chunks.drop_last();
        lemma_all_bytes_grow(init, i);
        assert(init.take(i) =~= chunks.take(i));
        let n = all_bytes(chunks.take(i)).len() as int;
        assert(all_bytes(chunks).take(n) =~= all_bytes(init).take(n));
        if forall|j: int| 0 <= j < chunks.len() ==> #[trigger] chunks[j].len() > 0 {
            assert(chunks[chunks.len() - 1].len() > 0);
        }
    }
}

/// While a message is incomplete its bytes are kept.
proof fn lemma_reads_accumulate(
    c: ConnectionView,
    head: Seq<char>,
    body: Seq<char>,
    chunks: Seq<Seq<u8>>,
    i: int,
)
    requires
        c.pending.len() == 0,
        is_message(head, body),
        text::byte_len(head + body) <= MAX_MSG_BYTES,
        all_bytes(chunks) == vstd::utf8::encode_utf8(head + body),
        forall|j: int| 0 <= j < chunks.len() ==> #[trigger] chunks[j].len() > 0,
        0 <= i < chunks.len(),
    ensures
        after_reads(c, chunks.take(i)) == (
            ConnectionView { pending: all_bytes(chunks.take(i)), ..c },
            IntakeView::More,
        ),
    decreases i,
{
    if i == 0 {
        assert(c.pending =~= all_bytes(chunks.take(0)));
    } else {
        lemma_reads_accumulate(c, head, body, chunks, i - 1);
        assert(chunks.take(i).drop_last() =~= chunks.take(i - 1));
        lemma_all_bytes_grow(chunks, i);
        let k = all_bytes(chunks.take(i)).len() as int;
        law_incomplete_message_waits(head, body, k);
        assert(chunks[i - 1].len() > 0);
        assert(chunks.take(i).last() == chunks[i - 1]);
    }
}

/// However a message is cut into reads, it is taken exactly when its last byte
/// is there, and with the outcome that it has when it comes in one read.
pub proof fn law_message_is_taken_once_whole(
    c: ConnectionView,
    head: Seq<char>,
    body: Seq<char>,
    chunks: Seq<Seq<u8>>,
)
    requires
        c.pending.len() == 0,
        is_message(head, body),
        text::byte_len(head + body) <= MAX_MSG_BYTES,
        all_bytes(chunks) == vstd::utf8::encode_utf8(head + body),
        forall|j: int| 0 <= j < chunks.len() ==> #[trigger] chunks[j].len() > 0,
    ensures
        forall|i: int|
            0 <= i < chunks.len() ==> #[trigger] after_reads(c, chunks.take(i)).1
                == IntakeView::More,
        after_reads(c, chunks) == received(c, vstd::utf8::encode_utf8(head + body)),
        !c.awaiting_reply ==> after_reads(c, chunks).1 == match rtsp::parsed(head + body) {
            Some(q) => IntakeView::Request(q),
            None => IntakeView::Ignored,
        },
{
    let bytes = vstd::utf8::encode_utf8(head + body);
    assert forall|i: int| 0 <= i < chunks.len() implies #[trigger] after_reads(
        c,
        chunks.take(i),
    ).1 == IntakeView::More by {
        lemma_reads_accumulate(c, head, body, chunks, i);
    }
    text::lemma_encoding_of_concat(head, body);
    assert(bytes.len() > 0 && chunks.len() > 0) by {
        reveal_strlit("\r\n\r\n");
        if bytes.len() == 0 {
            assert(vstd::utf8::encode_utf8(head) =~= vstd::utf8::encode_utf8(seq![]));
            text::lemma_encoding_determines_text(head, seq![]);
        }
    }
    let last = chunks.len() - 1;
    lemma_reads_accumulate(c, head, body, chunks, last);
    assert(chunks.take(last) =~= chunks.drop_last());
    assert(c.pending + bytes =~= bytes);
    assert(chunks[last].len() > 0);
    law_complete_message_is_taken(head, body, seq![]);
    assert(head + body + Seq::<char>::empty() =~= head + body);
}

/// No message is taken out of more bytes than the largest message has.
pub proof fn law_large_messages_are_refused(c: ConnectionView, chunk: Seq<u8>)
    requires
        chunk.len() > 0,
        c.pending.len() + chunk.len() > MAX_MSG_BYTES,
    ensures
        received(c, chunk) == (c, IntakeView::TooLarge),
{
}

/// The reply to a request of the sink is taken and not answered; the session
/// stays as it is.
pub proof fn law_awaited_reply_is_taken(c: ConnectionView, head: Seq<char>, body: Seq<char>)
    requires
        c.pending.len() == 0,
        c.awaiting_reply,
        is_message(head, body),
        text::occurs_at(head + body, "RTSP/"@, 0),
        text::byte_len(head + body) <= MAX_MSG_BYTES,
    ensures
        received(c, vstd::utf8::encode_utf8(head + body)) == (
            ConnectionView { awaiting_reply: false, ..c },
            IntakeView::Reply,
        ),
{
    let bytes = vstd::utf8::encode_utf8(head + body);
    law_complete_message_is_taken(head, body, seq![]);
    assert(head + body + Seq::<char>::empty() =~= head + body);
    assert(c.pending + bytes =~= bytes);
    assert(bytes.len() > 0) by {
        if bytes.len() == 0 {
            assert(bytes =~= vstd::utf8::encode_utf8(seq![]));
            text::lemma_encoding_determines_text(head + body, seq![]);
            reveal_strlit("RTSP/");
        }
    }
    assert(c.pending =~= seq![]);
}

/// A read never changes the session; it ends the wait for a reply only by
/// bringing it; and it leaves the bytes held as they were, longer by the bytes
/// read, or, once a message is whole, empty.
pub proof fn law_read_changes_only_the_bytes(c: ConnectionView, chunk: Seq<u8>)
    ensures
        ({
            let (after, outcome) = received(c, chunk);
            &&& after.session == c.session
            &&& after.awaiting_reply == (c.awaiting_reply && outcome != IntakeView::Reply)
            &&& outcome == IntakeView::Reply ==> c.awaiting_reply
            &&& after.pending == match outcome {
                IntakeView::Closed | IntakeView::TooLarge => c.pending,
                IntakeView::More => c.pending + chunk,
                _ => seq![],
            }
            &&& outcome == IntakeView::Closed <==> chunk.len() == 0
            &&& c.pending.len() <= 65_536 ==> after.pending.len() <= 65_536
        }),
{
}

/// A whole message that does not answer the sink is a request exactly where it
/// can be parsed, and is dropped where it cannot.
pub proof fn law_message_is_a_request_or_dropped(
    c: ConnectionView,
    head: Seq<char>,
    body: Seq<char>,
)
    requires
        c.pending.len() == 0,
        is_message(head, body),
        text::byte_len(head + body) <= 65_536,
        !c.awaiting_reply || !text::occurs_at(head + body, "RTSP/"@, 0),
    ensures
        ({
            let outcome = received(c, vstd::utf8::encode_utf8(head + body)).1;
            &&& rtsp::parsed(head + body) matches Some(q) ==> outcome == IntakeView::Request(q)
            &&& rtsp::parsed(head + body) is None ==> outcome == IntakeView::Ignored
        }),
{
    let bytes = vstd::utf8::encode_utf8(head + body);
    law_complete_message_is_taken(head, body, seq![]);
    assert(head + body + Seq::<char>::empty() =~= head + body);
    assert(c.pending + bytes =~= bytes);
    assert(bytes.len() > 0) by {
        if bytes.len() == 0 {
            assert(bytes =~= vstd::utf8::encode_utf8(seq![]));
            text::lemma_encoding_determines_text(head + body, seq![]);
            reveal_strlit("\r\n\r\n");
        }
    }
}

/// What is taken as a message is a beginning of the bytes, as text.
pub proof fn law_message_is_the_beginning(bytes: &[u8], r: Option<String>)
    requires
        call_ensures(frame, (bytes,), r),
    ensures
        r matches Some(m) ==> {
            let n = vstd::utf8::encode_utf8(m@).len() as int;
            n <= bytes@.len() && bytes@.take(n) == vstd::utf8::encode_utf8(m@)
        },
{
    if let Some(m) = r {
        let t = text::decoded(bytes@);
        let head = head_of(t);
        let size = (text::byte_len(head) + body_size(head)) as int;
        let part = bytes@.take(size);
        vstd::utf8::decode_utf8_encode_utf8(part);
        assert(m@ == vstd::utf8::decode_utf8(part));
        assert(bytes@.take(part.len() as int) =~= part);
    }
}

/// The RTSP subsystem is connected after `SETUP`, plays after `PLAY` and is
/// idle after `TEARDOWN`; no other request moves it.
pub proof fn law_state_after(method: Seq<char>)
    ensures
        method == "SETUP"@ ==> state_after(method) == Some(2u8),
        method == "PLAY"@ ==> state_after(method) == Some(3u8),
        method == "TEARDOWN"@ ==> state_after(method) == Some(0u8),
        state_after(method) is Some ==> method == "SETUP"@ || method == "PLAY"@ || method
            == "TEARDOWN"@,
{
    reveal_strlit("SETUP");
    reveal_strlit("PLAY");
    reveal_strlit("TEARDOWN");
    assert("SETUP"@.len() == 5 && "PLAY"@.len() == 4 && "TEARDOWN"@.len() == 8);
}

/// A connection waits for its peer exactly as long as the keep-alive window
/// has not passed since the last message, and for the rest of it.
pub proof fn law_patience(cfg: &Config, quiet_secs: u64, p: Patience)
    requires
        call_ensures(patience, (cfg, quiet_secs), p),
    ensures
        p is Close <==> quiet_secs >= cfg.rtsp_keepalive_secs,
        p matches Patience::Wait { secs } ==> quiet_secs + secs == cfg.rtsp_keepalive_secs,
{
}

/// Only a whole message of the peer shows that it is alive.
pub proof fn law_only_messages_show_life(intake: &Intake, r: bool)
    requires
        call_ensures(Intake::is_message, (intake,), r),
    ensures
        !r <==> intake is Closed || intake is TooLarge || intake is More,
{
}

/// A new connection holds nothing, has no session and waits for no reply.
pub proof fn law_new_connection(c: Connection)
    requires
        call_ensures(Connection::new, (), c),
    ensures
        c@.pending.len() == 0,
        c@.session is None,
        !c@.awaiting_reply,
{
}

/// Whether the last `Content-Length` of a list of headers, if any, declares
/// `size` bytes; a list without one, or with one that is no number, declares
/// none.
pub open spec fn declares(headers: Seq<(Seq<char>, Seq<char>)>, size: nat) -> bool {
    let name = "Content-Length"@;
    ||| size == 0 && forall|j: int|
        0 <= j < headers.len() ==> !text::same_name(#[trigger] headers[j].0, name)
    ||| exists|i: int|
        {
            &&& 0 <= i < headers.len()
            &&& text::same_name((#[trigger] headers[i]).0, name)
            &&& forall|j: int|
                i < j < headers.len() ==> !text::same_name(#[trigger] headers[j].0, name)
            &&& match text::unsigned(headers[i].1, usize::MAX as nat) {
                Some(n) => size == n,
                None => size == 0,
            }
        }
}

/// A head is followed by the bytes that its last `Content-Length` declares.
pub proof fn law_body_size(head: Seq<char>, size: nat)
    requires
        rtsp::parsed(head) matches Some(q) ==> declares(q.headers, size),
        rtsp::parsed(head) is None ==> size == 0,
    ensures
        body_size(head) == size,
{
    if let Some(q) = rtsp::parsed(head) {
        let name = "Content-Length"@;
        let headers = q.headers;
        crate::laws::law_declared_length(headers, 0);
        if !(forall|j: int|
            0 <= j < headers.len() ==> !text::same_name(#[trigger] headers[j].0, name)) {
            let i = choose|i: int|
                {
                    &&& 0 <= i < headers.len()
                    &&& text::same_name((#[trigger] headers[i]).0, name)
                    &&& forall|j: int|
                        i < j < headers.len() ==> !text::same_name(#[trigger] headers[j].0, name)
                    &&& match text::unsigned(headers[i].1, usize::MAX as nat) {
                        Some(n) => size == n,
                        None => size == 0,
                    }
                };
            crate::laws::law_declared_length(headers, i);
        }
    }
}

/// A head and the bytes that it declares are taken as soon as they are there,
/// whatever follows them, and not before.
pub proof fn law_frame(
    bytes: &[u8],
    r: Option<String>,
    head: Seq<char>,
    body: Seq<char>,
    more: Seq<char>,
    k: int,
)
    requires
        call_ensures(frame, (bytes,), r),
        text::first_at(head, "\r\n\r\n"@, head.len() - 4),
        rtsp::parsed(head) matches Some(q) ==> declares(
            q.headers,
            vstd::utf8::encode_utf8(body).len(),
        ),
        rtsp::parsed(head) is None ==> body.len() == 0,
    ensures
        bytes@ == vstd::utf8::encode_utf8(head + body + more) ==> r is Some && r->0@ == head + body,
        0 <= k < vstd::utf8::encode_utf8(head + body).len() && bytes@ == vstd::utf8::encode_utf8(
            head + body,
        ).take(k) ==> r is None,
{
    if body.len() == 0 {
        assert(body =~= seq![]);
        assert(vstd::utf8::encode_utf8(body) =~= seq![]);
    }
    law_body_size(head, vstd::utf8::encode_utf8(body).len());
    law_complete_message_is_taken(head, body, more);
    if 0 <= k < vstd::utf8::encode_utf8(head + body).len() {
        law_incomplete_message_waits(head, body, k);
    }
}

/// What a read does: one of no bytes closes, one that brings more than 64 KiB
/// together is refused, and neither changes anything; the session is never
/// touched; and the bytes are kept until a message is whole.
pub proof fn law_receive(c: &mut Connection, chunk: &[u8], r: Intake)
    requires
        call_ensures(Connection::receive, (c, chunk), r),
    ensures
        r is Closed <==> chunk@.len() == 0,
        r is TooLarge <==> chunk@.len() > 0 && old(c)@.pending.len() + chunk@.len() > 65_536,
        r is Closed || r is TooLarge ==> final(c)@ == old(c)@,
        r is More ==> final(c)@.pending == old(c)@.pending + chunk@,
        r is Ignored || r is Reply || r is Request ==> final(c)@.pending.len() == 0,
        final(c)@.session == old(c)@.session,
        r is Reply ==> old(c)@.awaiting_reply && !final(c)@.awaiting_reply,
        !(r is Reply) ==> final(c)@.awaiting_reply == old(c)@.awaiting_reply,
{
    law_read_changes_only_the_bytes(old(c)@, chunk@);
}

/// The read that completes a message takes it: as the reply that is awaited
/// where it begins with `RTSP/`, as a request where it can be parsed, and as
/// nothing otherwise.
pub proof fn law_receive_message(
    c: &mut Connection,
    chunk: &[u8],
    r: Intake,
    head: Seq<char>,
    body: Seq<char>,
    more: Seq<char>,
)
    requires
        call_ensures(Connection::receive, (c, chunk), r),
        chunk@.len() > 0,
        old(c)@.pending.len() + chunk@.len() <= 65_536,
        old(c)@.pending + chunk@ == vstd::utf8::encode_utf8(head + body + more),
        text::first_at(head, "\r\n\r\n"@, head.len() - 4),
        rtsp::parsed(head) matches Some(q) ==> declares(
            q.headers,
            vstd::utf8::encode_utf8(body).len(),
        ),
        rtsp::parsed(head) is None ==> body.len() == 0,
    ensures
        r is Reply <==> old(c)@.awaiting_reply && text::occurs_at(head + body, "RTSP/"@, 0),
        !(r is Reply) ==> (r is Request <==> rtsp::parsed(head + body) is Some),
        !(r is Reply) ==> (r is Ignored <==> rtsp::parsed(head + body) is None),
        r matches Intake::Request(q) ==> rtsp::parsed(head + body) == Some(q@),
{
    if body.len() == 0 {
        assert(body =~= seq![]);
        assert(vstd::utf8::encode_utf8(body) =~= seq![]);
    }
    law_body_size(head, vstd::utf8::encode_utf8(body).len());
    law_complete_message_is_taken(head, body, more);
}

/// A read that leaves a message incomplete asks for more.
pub proof fn law_receive_part(
    c: &mut Connection,
    chunk: &[u8],
    r: Intake,
    head: Seq<char>,
    body: Seq<char>,
    k: int,
)
    requires
        call_ensures(Connection::receive, (c, chunk), r),
        chunk@.len() > 0,
        old(c)@.pending.len() + chunk@.len() <= 65_536,
        0 <= k < vstd::utf8::encode_utf8(head + body).len(),
        old(c)@.pending + chunk@ == vstd::utf8::encode_utf8(head + body).take(k),
        text::first_at(head, "\r\n\r\n"@, head.len() - 4),
        rtsp::parsed(head) matches Some(q) ==> declares(
            q.headers,
            vstd::utf8::encode_utf8(body).len(),
        ),
        rtsp::parsed(head) is None ==> body.len() == 0,
    ensures
        r is More,
{
    if body.len() == 0 {
        assert(body =~= seq![]);
        assert(vstd::utf8::encode_utf8(body) =~= seq![]);
    }
    law_body_size(head, vstd::utf8::encode_utf8(body).len());
    law_incomplete_message_waits(head, body, k);
}

/// Bytes that are no text, and a text without an empty line, hold no message.
pub proof fn law_no_message(bytes: &[u8], r: Option<String>, t: Seq<char>)
    requires
        call_ensures(frame, (bytes,), r),
    ensures
        !vstd::utf8::valid_utf8(bytes@) ==> r is None,
        bytes@ == vstd::utf8::encode_utf8(t) && !text::occurs(t, "\r\n\r\n"@) ==> r is None,
{
    text::lemma_decoded_encoding(t);
    if !vstd::utf8::valid_utf8(bytes@) {
        let none = Seq::<char>::empty();
        assert(text::decoded(bytes@) =~= none);
        reveal_strlit("\r\n\r\n");
        assert(!text::occurs(none, "\r\n\r\n"@));
    }
}

/// Whatever bytes follow a head, the message ends where the head says: it is
/// taken exactly where that many bytes are there and do not end within a
/// character.
pub proof fn law_message_ends_as_declared(
    bytes: &[u8],
    r: Option<String>,
    head: Seq<char>,
    rest: Seq<char>,
    size: nat,
)
    requires
        call_ensures(frame, (bytes,), r),
        text::first_at(head, "\r\n\r\n"@, head.len() - 4),
        bytes@ == vstd::utf8::encode_utf8(head + rest),
        rtsp::parsed(head) matches Some(q) ==> declares(q.headers, size),
        rtsp::parsed(head) is None ==> size == 0,
    ensures
        ({
            let end = vstd::utf8::encode_utf8(head).len() + size;
            &&& r is Some <==> end <= bytes@.len() && vstd::utf8::valid_utf8(
                bytes@.take(end as int),
            )
            &&& r matches Some(m) ==> vstd::utf8::encode_utf8(m@) == bytes@.take(end as int)
        }),
{
    let t = head + rest;
    text::lemma_decoded_encoding(t);
    assert(t.take(head.len() as int) =~= head);
    lemma_head_in_front(head, t);
    law_body_size(head, size);
    let end = vstd::utf8::encode_utf8(head).len() + size;
    if end <= bytes@.len() && vstd::utf8::valid_utf8(bytes@.take(end as int)) {
        vstd::utf8::decode_utf8_encode_utf8(bytes@.take(end as int));
    }
}

/// A read asks for more exactly where the bytes held and those read hold no
/// message yet; the message that they hold is the one that is taken.
pub proof fn law_receive_frames(
    c: &mut Connection,
    chunk: &[u8],
    r: Intake,
    bytes: &[u8],
    message: Option<String>,
)
    requires
        call_ensures(Connection::receive, (c, chunk), r),
        chunk@.len() > 0,
        old(c)@.pending.len() + chunk@.len() <= 65_536,
        bytes@ == old(c)@.pending + chunk@,
        call_ensures(frame, (bytes,), message),
    ensures
        r is More <==> message is None,
        message matches Some(m) ==> {
            let reply = old(c)@.awaiting_reply && text::occurs_at(m@, "RTSP/"@, 0);
            &&& r is Reply <==> reply
            &&& r is Request <==> !reply && rtsp::parsed(m@) is Some
            &&& r is Ignored <==> !reply && rtsp::parsed(m@) is None
            &&& r matches Intake::Request(q) ==> rtsp::parsed(m@) == Some(q@)
        },
{
}

} // verus!
