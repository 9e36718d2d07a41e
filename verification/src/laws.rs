//! What holds of every request and every answer on the wire.

use vstd::prelude::*;

use crate::config::Config;
use crate::connection;
use crate::rtsp;
use crate::text;
use crate::video;

verus! {

// ---------------------------------------------------------------------------
// Blocks of lines
// ---------------------------------------------------------------------------

/// Whether `s` fits on one line.
pub open spec fn one_line(s: Seq<char>) -> bool {
    forall|i: int| 0 <= i < s.len() ==> #[trigger] s[i] != '\n'
}

/// `lines`, each followed by CR LF.
pub open spec fn block(lines: Seq<Seq<char>>) -> Seq<char>
    decreases lines.len(),
{
    if lines.len() == 0 {
        seq![]
    } else {
        lines[0] + "\r\n"@ + block(lines.drop_first())
    }
}

/// A further line at the end of a block.
proof fn lemma_block_push(lines: Seq<Seq<char>>, x: Seq<char>)
    ensures
        block(lines.push(x)) == block(lines) + x + "\r\n"@,
    decreases lines.len(),
{
    if lines.len() == 0 {
        assert(lines.push(x).drop_first() =~= Seq::<Seq<char>>::empty());
        assert(block(lines.push(x)) =~= block(lines) + x + "\r\n"@) by {
            reveal_with_fuel(block, 2);
        }
    } else {
        lemma_block_push(lines.drop_first(), x);
        assert(lines.push(x).drop_first() =~= lines.drop_first().push(x));
        assert(block(lines.push(x)) =~= block(lines) + x + "\r\n"@);
    }
}

/// The lines of a block, an empty line and a text after it.
proof fn lemma_lines_of_block(lines: Seq<Seq<char>>, body: Seq<char>)
    requires
        forall|i: int| 0 <= i < lines.len() ==> one_line(#[trigger] lines[i]),
    ensures
        text::lines_of(block(lines) + "\r\n"@ + body) == lines.push(seq![]) + text::lines_of(
            body,
        ),
    decreases lines.len(),
{
    reveal_strlit("\r\n");
    let s = block(lines) + "\r\n"@ + body;
    if lines.len() == 0 {
        assert(s =~= seq!['\r', '\n'] + body);
        text::lemma_find_char_is(s, '\n', 1);
        assert(text::without_cr(s.take(1)) =~= seq![]);
        assert(s.skip(2) =~= body);
        assert(text::lines_of(s) =~= lines.push(seq![]) + text::lines_of(body));
    } else {
        let l = lines[0];
        let rest = lines.drop_first();
        let tail = block(rest) + "\r\n"@ + body;
        assert forall|i: int| 0 <= i < rest.len() implies one_line(#[trigger] rest[i]) by {
            assert(rest[i] == lines[i + 1]);
        }
        lemma_lines_of_block(rest, body);
        assert(one_line(l));
        assert(s =~= l + "\r\n"@ + tail);
        let k = l.len() as int + 1;
        assert forall|j: int| 0 <= j < k implies s[j] != '\n' by {
            if j < l.len() {
                assert(s[j] == l[j]);
            }
        }
        text::lemma_find_char_is(s, '\n', k);
        assert(text::without_cr(s.take(k)) =~= l);
        assert(s.skip(k + 1) =~= tail);
        assert(text::lines_of(s) =~= lines.push(seq![]) + text::lines_of(body));
    }
}

/// The first empty line of a block of lines that are not empty is its end.
proof fn lemma_block_is_head(lines: Seq<Seq<char>>)
    requires
        lines.len() > 0,
        forall|i: int| 0 <= i < lines.len() ==> one_line(#[trigger] lines[i]) && lines[i].len() > 0,
    ensures
        connection::is_head(block(lines) + "\r\n"@),
    decreases lines.len(),
{
    reveal_strlit("\r\n");
    reveal_strlit("\r\n\r\n");
    let n = "\r\n\r\n"@;
    let l = lines[0];
    let rest = lines.drop_first();
    let s = block(lines) + "\r\n"@;
    let tail = block(rest) + "\r\n"@;
    assert(s =~= l + "\r\n"@ + tail);
    assert(one_line(l));
    let d = l.len() as int + 2;
    assert forall|j: int| 0 <= j < l.len() implies !text::occurs_at(s, n, j) by {
        if text::occurs_at(s, n, j) {
            assert(s.subrange(j, j + 4)[1] == n[1]);
            if j + 1 < l.len() {
                assert(s[j + 1] == l[j + 1]);
            }
        }
    }
    if rest.len() == 0 {
        assert(tail =~= "\r\n"@);
        assert(s.subrange(l.len() as int, l.len() as int + 4) =~= n);
        assert(text::first_at(s, n, s.len() - 4));
    } else {
        assert forall|i: int| 0 <= i < rest.len() implies one_line(#[trigger] rest[i])
            && rest[i].len() > 0 by {
            assert(rest[i] == lines[i + 1]);
        }
        lemma_block_is_head(rest);
        let t = tail.len() - 4;
        assert(text::first_at(tail, n, t));
        assert(one_line(rest[0]) && rest[0].len() > 0);
        assert(tail[1] != '\n') by {
            if rest[0].len() > 1 {
                assert(tail[1] == rest[0][1]);
            }
        }
        assert forall|j: int| d <= j && j + 4 <= s.len() implies s.subrange(j, j + 4)
            == #[trigger] tail.subrange(j - d, j - d + 4) by {
            assert(s.subrange(j, j + 4) =~= tail.subrange(j - d, j - d + 4));
        }
        assert(s.subrange(t + d, t + d + 4) =~= tail.subrange(t, t + 4));
        assert(text::occurs_at(s, n, t + d));
        assert forall|j: int| 0 <= j < t + d implies !text::occurs_at(s, n, j) by {
            if text::occurs_at(s, n, j) {
                assert(s.subrange(j, j + 4)[0] == n[0]);
                assert(s.subrange(j, j + 4)[3] == n[3]);
                if j == l.len() {
                    assert(s[j + 3] == tail[1]);
                } else if j == l.len() + 1 {
                    assert(s[j] == '\n');
                } else if j >= d {
                    assert(tail.subrange(j - d, j - d + 4) == n);
                    assert(text::occurs_at(tail, n, j - d));
                }
            }
        }
    }
}

/// The headers of lines that end with one more line and an empty one.
proof fn lemma_last_header(lines: Seq<Seq<char>>, x: Seq<char>)
    requires
        forall|i: int| 0 <= i < lines.len() ==> (#[trigger] lines[i]).len() > 0,
        x.len() > 0,
    ensures
        rtsp::headers_in(lines.push(x).push(seq![])) == rtsp::headers_in(lines.push(seq![]))
            + rtsp::header_in(x),
    decreases lines.len(),
{
    let a = lines.push(x).push(seq![]);
    let b = lines.push(seq![]);
    if lines.len() == 0 {
        assert(a.drop_first() =~= seq![Seq::<char>::empty()]);
        reveal_with_fuel(rtsp::headers_in, 2);
        assert(rtsp::headers_in(a) =~= rtsp::headers_in(b) + rtsp::header_in(x));
    } else {
        let rest = lines.drop_first();
        assert forall|i: int| 0 <= i < rest.len() implies (#[trigger] rest[i]).len() > 0 by {
            assert(rest[i] == lines[i + 1]);
        }
        lemma_last_header(rest, x);
        assert(a.drop_first() =~= rest.push(x).push(seq![]));
        assert(b.drop_first() =~= rest.push(seq![]));
        assert(a[0] == lines[0] && b[0] == lines[0]);
        assert(rtsp::headers_in(a) =~= rtsp::headers_in(b) + rtsp::header_in(x));
    }
}

/// The header line that declares a body of `n` bytes.
pub open spec fn length_line(n: nat) -> Seq<char> {
    "Content-Length: "@ + text::decimal(n)
}

/// That header line declares what it says.
proof fn lemma_length_line(n: nat)
    requires
        n <= usize::MAX,
    ensures
        one_line(length_line(n)),
        length_line(n).len() > 0,
        ({
            let h = rtsp::header_in(length_line(n));
            &&& h.len() == 1
            &&& text::lowered(h[0].0) == text::lowered("content-length"@)
            &&& text::unsigned(h[0].1, usize::MAX as nat) == Some(n)
        }),
{
    reveal_strlit("Content-Length: ");
    reveal_strlit("content-length");
    let d = text::decimal(n);
    let s = length_line(n);
    text::lemma_decimal(n);
    text::law_decimal_round_trip(n, usize::MAX as nat);
    assert forall|i: int| 0 <= i < s.len() implies #[trigger] s[i] != '\n' by {
        if i >= 16 {
            assert(s[i] == d[i - 16]);
            assert(text::is_digit(d[i - 16]));
        } else {
            assert(s[i] == "Content-Length: "@[i]);
        }
    }
    assert forall|j: int| 0 <= j < 14 implies s[j] != ':' by {
        assert(s[j] == "Content-Length: "@[j]);
    }
    assert(s[14] == ':');
    text::lemma_find_char_is(s, ':', 14);
    let k = s.take(14);
    let v = s.skip(15);
    assert(k.len() == 14 && k[0] == 'C' && k[13] == 'h');
    assert(text::trimmed(k) == k);
    assert(text::lowered(k) =~= text::lowered("content-length"@));
    assert(v[0] == ' ');
    assert(v.drop_first() =~= d);
    assert(text::is_digit(d[0]));
    assert(text::is_digit(d[d.len() - 1]));
    assert(text::trimmed_start(v) == d) by {
        reveal_with_fuel(text::trimmed_start, 2);
    }
    assert(text::trimmed(v) == d);
}

// ---------------------------------------------------------------------------
// Responses
// ---------------------------------------------------------------------------

/// The headers that are not empty.
pub open spec fn kept(headers: Seq<Seq<char>>) -> Seq<Seq<char>> {
    headers.filter(|h: Seq<char>| h.len() > 0)
}

/// The header lines are a block of those headers.
proof fn lemma_header_lines(headers: Seq<Seq<char>>)
    requires
        forall|i: int| 0 <= i < headers.len() ==> one_line(#[trigger] headers[i]),
    ensures
        rtsp::header_lines(headers) == block(kept(headers)),
        forall|i: int|
            0 <= i < kept(headers).len() ==> one_line(#[trigger] kept(headers)[i])
                && kept(headers)[i].len() > 0,
    decreases headers.len(),
{
    reveal(Seq::filter);
    if headers.len() > 0 {
        let init = headers.drop_last();
        assert forall|i: int| 0 <= i < init.len() implies one_line(#[trigger] init[i]) by {
            assert(init[i] == headers[i]);
        }
        lemma_header_lines(init);
        assert(one_line(headers[headers.len() - 1]));
        if headers.last().len() > 0 {
            assert(kept(headers) == kept(init).push(headers.last()));
            lemma_block_push(kept(init), headers.last());
        } else {
            assert(kept(headers) == kept(init));
        }
    }
}

/// The lines of a response before its empty line, but for the last one.
pub open spec fn response_lines(
    cseq: Seq<char>,
    status: nat,
    reason: Seq<char>,
    headers: Seq<Seq<char>>,
    body: Seq<char>,
) -> Seq<Seq<char>> {
    let first = seq![
        "RTSP/1.0 "@ + text::decimal(status) + " "@ + reason,
        "CSeq: "@ + cseq,
        "Server: nicocast/1.0"@,
    ] + kept(headers);
    if body.len() > 0 {
        first.push("Content-Type: text/parameters"@)
    } else {
        first
    }
}

/// A response up to and including its empty line.
pub open spec fn response_head(
    cseq: Seq<char>,
    status: nat,
    reason: Seq<char>,
    headers: Seq<Seq<char>>,
    body: Seq<char>,
) -> Seq<char> {
    block(
        response_lines(cseq, status, reason, headers, body).push(
            length_line(text::byte_len(body)),
        ),
    ) + "\r\n"@
}

/// Blocks one after the other.
proof fn lemma_block_concat(a: Seq<Seq<char>>, b: Seq<Seq<char>>)
    ensures
        block(a + b) == block(a) + block(b),
    decreases a.len(),
{
    if a.len() == 0 {
        assert(a + b =~= b);
        assert(block(a) + block(b) =~= block(b));
    } else {
        lemma_block_concat(a.drop_first(), b);
        assert((a + b).drop_first() =~= a.drop_first() + b);
        assert((a + b)[0] == a[0]);
        assert(block(a + b) =~= block(a) + block(b));
    }
}

/// A response is its head and its body.
proof fn lemma_response_parts(
    cseq: Seq<char>,
    status: nat,
    reason: Seq<char>,
    headers: Seq<Seq<char>>,
    body: Seq<char>,
)
    requires
        forall|i: int| 0 <= i < headers.len() ==> one_line(#[trigger] headers[i]),
    ensures
        rtsp::response(cseq, status, reason, headers, body) == response_head(
            cseq,
            status,
            reason,
            headers,
            body,
        ) + body,
{
    let a = "RTSP/1.0 "@ + text::decimal(status) + " "@ + reason;
    let b = "CSeq: "@ + cseq;
    let c = "Server: nicocast/1.0"@;
    let top = seq![a, b, c];
    let mid = top + kept(headers);
    let lines = response_lines(cseq, status, reason, headers, body);
    let crlf = "\r\n"@;
    lemma_header_lines(headers);
    lemma_block_concat(top, kept(headers));
    assert(block(top) =~= a + crlf + b + crlf + c + crlf) by {
        let e = Seq::<Seq<char>>::empty();
        lemma_block_push(e, a);
        lemma_block_push(e.push(a), b);
        lemma_block_push(e.push(a).push(b), c);
        assert(top =~= e.push(a).push(b).push(c));
    }
    reveal_strlit("\r\n");
    reveal_strlit("Server: nicocast/1.0");
    reveal_strlit("Server: nicocast/1.0\r\n");
    assert("Server: nicocast/1.0\r\n"@ =~= c + crlf);
    let len = length_line(text::byte_len(body));
    lemma_block_push(lines, len);
    if body.len() > 0 {
        lemma_block_push(mid, "Content-Type: text/parameters"@);
        reveal_strlit("Content-Type: text/parameters");
        reveal_strlit("Content-Type: text/parameters\r\n");
        assert("Content-Type: text/parameters\r\n"@ =~= "Content-Type: text/parameters"@ + crlf);
        assert(block(lines) + len + crlf =~= block(mid) + rtsp::body_headers(body));
    } else {
        reveal_strlit("Content-Length: 0\r\n");
        reveal_strlit("Content-Length: ");
        assert(vstd::utf8::encode_utf8(body) =~= seq![]);
        assert(text::decimal(0) =~= seq!['0']);
        assert(rtsp::body_headers(body) =~= len + crlf);
        assert(block(lines) + len + crlf =~= block(mid) + rtsp::body_headers(body));
    }
    assert(rtsp::response(cseq, status, reason, headers, body) =~= block(top)
        + rtsp::header_lines(headers) + rtsp::body_headers(body) + crlf + body);
}

/// A response is a message: the length that its head declares is that of its
/// body, so that it can be told from what follows it.
pub proof fn law_response_is_a_message(
    cseq: Seq<char>,
    status: nat,
    reason: Seq<char>,
    headers: Seq<Seq<char>>,
    body: Seq<char>,
)
    requires
        one_line(cseq),
        one_line(reason),
        forall|i: int| 0 <= i < headers.len() ==> one_line(#[trigger] headers[i]),
        text::byte_len(body) <= usize::MAX,
    ensures
        ({
            let head = response_head(cseq, status, reason, headers, body);
            &&& rtsp::response(cseq, status, reason, headers, body) == head + body
            &&& connection::is_message(head, body)
        }),
{
    let head = response_head(cseq, status, reason, headers, body);
    let lines = response_lines(cseq, status, reason, headers, body);
    let len = length_line(text::byte_len(body));
    let all = lines.push(len);
    lemma_response_parts(cseq, status, reason, headers, body);
    lemma_header_lines(headers);
    lemma_length_line(text::byte_len(body));
    text::lemma_decimal(status);
    reveal_strlit("RTSP/1.0 ");
    reveal_strlit(" ");
    reveal_strlit("CSeq: ");
    reveal_strlit("Server: nicocast/1.0");
    reveal_strlit("Content-Type: text/parameters");
    let first = "RTSP/1.0 "@ + text::decimal(status) + " "@ + reason;
    assert(one_line(first)) by {
        let d = text::decimal(status);
        assert forall|i: int| 0 <= i < first.len() implies #[trigger] first[i] != '\n' by {
            if 9 <= i < 9 + d.len() {
                assert(first[i] == d[i - 9]);
                assert(text::is_digit(d[i - 9]));
            } else if i >= 10 + d.len() {
                assert(first[i] == reason[i - 10 - d.len()]);
            } else if i < 9 {
                assert(first[i] == "RTSP/1.0 "@[i]);
            }
        }
    }
    let second = "CSeq: "@ + cseq;
    assert(one_line(second)) by {
        assert forall|i: int| 0 <= i < second.len() implies #[trigger] second[i] != '\n' by {
            if i >= 6 {
                assert(second[i] == cseq[i - 6]);
            } else {
                assert(second[i] == "CSeq: "@[i]);
            }
        }
    }
    assert(one_line("Server: nicocast/1.0"@));
    assert(one_line("Content-Type: text/parameters"@));
    assert forall|i: int| 0 <= i < all.len() implies one_line(#[trigger] all[i])
        && all[i].len() > 0 by {
        let k = kept(headers);
        if 3 <= i < 3 + k.len() {
            assert(all[i] == k[i - 3]);
        }
    }
    lemma_lines_of_block(all, seq![]);
    assert(head + Seq::<char>::empty() =~= head);
    assert(text::lines_of(seq![]) =~= seq![]);
    lemma_block_is_head(all);
    let blank = Seq::<char>::empty();
    let seen = text::lines_of(head);
    assert(seen == all.push(blank));
    assert(seen[0] == first);
    assert(first[8] == ' ');
    text::lemma_find_char(first, ' ');
    let inner = lines.drop_first();
    assert(seen.drop_first() =~= inner.push(len).push(blank));
    assert forall|i: int| 0 <= i < inner.len() implies (#[trigger] inner[i]).len() > 0 by {
        assert(inner[i] == all[i + 1]);
    }
    lemma_last_header(inner, len);
    let hs = rtsp::headers_in(seen.drop_first());
    assert(hs.last() == rtsp::header_in(len)[0]);
    assert(rtsp::declared_length(hs) == text::byte_len(body));
}

// ---------------------------------------------------------------------------
// Answers
// ---------------------------------------------------------------------------

/// What is left of a line without the white space at its ends is on one line.
proof fn lemma_trimmed_is_one_line(s: Seq<char>)
    requires
        one_line(s),
    ensures
        one_line(text::trimmed_start(s)),
        one_line(text::trimmed_end(s)),
    decreases s.len(),
{
    if s.len() > 0 {
        if text::is_space(s[0]) {
            assert(one_line(s.drop_first()));
            lemma_trimmed_is_one_line(s.drop_first());
        }
        if text::is_space(s.last()) {
            assert(one_line(s.drop_last()));
            lemma_trimmed_is_one_line(s.drop_last());
        }
    }
}

/// The lines of a text hold no line end.
proof fn lemma_lines_are_one_line(s: Seq<char>)
    ensures
        forall|i: int|
            0 <= i < text::lines_of(s).len() ==> one_line(#[trigger] text::lines_of(s)[i]),
    decreases s.len(),
{
    if s.len() > 0 {
        let k = text::find_char(s, '\n');
        let all = text::lines_of(s);
        text::lemma_find_char(s, '\n');
        if k < s.len() {
            let rest = text::lines_of(s.skip(k + 1));
            lemma_lines_are_one_line(s.skip(k + 1));
            assert(one_line(text::without_cr(s.take(k))));
            assert forall|i: int| 0 <= i < all.len() implies one_line(#[trigger] all[i]) by {
                if i > 0 {
                    assert(all[i] == rest[i - 1]);
                }
            }
        }
    }
}

/// The values of headers that were read from lines are on one line.
proof fn lemma_header_values(lines: Seq<Seq<char>>)
    requires
        forall|i: int| 0 <= i < lines.len() ==> one_line(#[trigger] lines[i]),
    ensures
        forall|i: int|
            0 <= i < rtsp::headers_in(lines).len() ==> one_line(
                (#[trigger] rtsp::headers_in(lines)[i]).1,
            ),
    decreases lines.len(),
{
    if lines.len() > 0 && lines[0].len() > 0 {
        let rest = lines.drop_first();
        assert forall|i: int| 0 <= i < rest.len() implies one_line(#[trigger] rest[i]) by {
            assert(rest[i] == lines[i + 1]);
        }
        lemma_header_values(rest);
        let line = lines[0];
        let k = text::find_char(line, ':');
        text::lemma_find_char(line, ':');
        let one = rtsp::header_in(line);
        if k < line.len() {
            assert(one_line(line));
            assert(one_line(line.skip(k + 1)));
            lemma_trimmed_is_one_line(line.skip(k + 1));
            lemma_trimmed_is_one_line(text::trimmed_start(line.skip(k + 1)));
        }
        let all = rtsp::headers_in(lines);
        assert forall|i: int| 0 <= i < all.len() implies one_line((#[trigger] all[i]).1) by {
            if i >= one.len() {
                assert(all[i] == rtsp::headers_in(rest)[i - one.len()]);
            }
        }
    }
}

/// A header's value is one of those in the list.
proof fn lemma_value_is_one_line(headers: Seq<(Seq<char>, Seq<char>)>, name: Seq<char>)
    requires
        forall|i: int| 0 <= i < headers.len() ==> one_line((#[trigger] headers[i]).1),
    ensures
        rtsp::header_value(headers, name) matches Some(v) ==> one_line(v),
    decreases headers.len(),
{
    if headers.len() > 0 {
        let rest = headers.drop_first();
        assert forall|i: int| 0 <= i < rest.len() implies one_line((#[trigger] rest[i]).1) by {
            assert(rest[i] == headers[i + 1]);
        }
        assert(one_line(headers[0].1));
        lemma_value_is_one_line(rest, name);
    }
}

/// Two texts on one line make a text on one line.
proof fn lemma_one_line_concat(a: Seq<char>, b: Seq<char>)
    requires
        one_line(a),
        one_line(b),
    ensures
        one_line(a + b),
{
    assert forall|i: int| 0 <= i < (a + b).len() implies #[trigger] (a + b)[i] != '\n' by {
        if i < a.len() {
            assert((a + b)[i] == a[i]);
        } else {
            assert((a + b)[i] == b[i - a.len()]);
        }
    }
}

/// A number in decimal is on one line.
proof fn lemma_decimal_is_one_line(n: nat)
    ensures
        one_line(text::decimal(n)),
{
    text::lemma_decimal(n);
    assert forall|i: int| 0 <= i < text::decimal(n).len() implies #[trigger] text::decimal(n)[i]
        != '\n' by {
        assert(text::is_digit(text::decimal(n)[i]));
    }
}

/// The transport that is agreed to is on one line.
proof fn lemma_transport_is_one_line(headers: Seq<(Seq<char>, Seq<char>)>, rtp_port: u16)
    requires
        forall|i: int| 0 <= i < headers.len() ==> one_line((#[trigger] headers[i]).1),
    ensures
        one_line(rtsp::transport_for(headers, rtp_port)),
{
    lemma_value_is_one_line(headers, "Transport"@);
    let a = text::decimal(rtp_port as nat);
    let b = text::decimal((rtp_port + 1) as nat);
    let ports = a + "-"@ + b;
    lemma_decimal_is_one_line(rtp_port as nat);
    lemma_decimal_is_one_line((rtp_port + 1) as nat);
    reveal_strlit("-");
    reveal_strlit(";server_port=");
    reveal_strlit("RTP/AVP/UDP;unicast;client_port=");
    assert(one_line("-"@));
    assert(one_line(";server_port="@));
    assert(one_line("RTP/AVP/UDP;unicast;client_port="@));
    lemma_one_line_concat(a, "-"@);
    lemma_one_line_concat(a + "-"@, b);
    match rtsp::header_value(headers, "Transport"@) {
        Some(t) => {
            lemma_one_line_concat(t, ";server_port="@);
            lemma_one_line_concat(t + ";server_port="@, ports);
        },
        None => {
            let front = "RTP/AVP/UDP;unicast;client_port="@;
            lemma_one_line_concat(front, ports);
            lemma_one_line_concat(front + ports, ";server_port="@);
            lemma_one_line_concat(front + ports + ";server_port="@, ports);
        },
    }
}

/// Every request, whatever it asks for, is answered by a message whose
/// declared length is that of its body, so that the peer can tell the answer
/// from what follows it.
pub proof fn law_answer_is_a_message(
    raw: Seq<char>,
    req: rtsp::RequestView,
    rtp_port: u16,
    session: Option<Seq<char>>,
    fresh: Seq<char>,
)
    requires
        rtsp::parsed(raw) == Some(req),
        session matches Some(sid) ==> one_line(sid),
        one_line(fresh),
        text::byte_len(
            rtsp::answered(req, connection::cseq_of(req), rtp_port, session, fresh).0,
        ) <= usize::MAX,
    ensures
        ({
            let answer = rtsp::answered(
                req,
                connection::cseq_of(req),
                rtp_port,
                session,
                fresh,
            ).0;
            &&& exists|head: Seq<char>, body: Seq<char>|
                #[trigger] connection::is_message(head, body) && answer == head + body
            &&& connection::framed(vstd::utf8::encode_utf8(answer)) == Some(answer)
        }),
{
    let cseq = connection::cseq_of(req);
    let answer = rtsp::answered(req, cseq, rtp_port, session, fresh).0;
    let lines = text::lines_of(raw);
    lemma_lines_are_one_line(raw);
    let rest = lines.drop_first();
    assert forall|i: int| 0 <= i < rest.len() implies one_line(#[trigger] rest[i]) by {
        assert(rest[i] == lines[i + 1]);
    }
    lemma_header_values(rest);
    lemma_value_is_one_line(req.headers, "CSeq"@);
    lemma_transport_is_one_line(req.headers, rtp_port);
    reveal_strlit("0");
    reveal_strlit("OK");
    reveal_strlit("Not Implemented");
    reveal_strlit("Session: ");
    reveal_strlit(";timeout=60");
    reveal_strlit("Transport: ");
    reveal_strlit("Public: org.wfa.wfd1.0, GET_PARAMETER, SET_PARAMETER, SETUP, PLAY, TEARDOWN");
    let public = "Public: org.wfa.wfd1.0, GET_PARAMETER, SET_PARAMETER, SETUP, PLAY, TEARDOWN"@;
    assert(one_line(cseq));
    assert(one_line("OK"@) && one_line("Not Implemented"@) && one_line(public));
    assert(one_line("Session: "@) && one_line(";timeout=60"@) && one_line("Transport: "@));
    let sid = match session {
        Some(x) => x,
        None => fresh,
    };
    lemma_one_line_concat("Session: "@, sid);
    lemma_one_line_concat("Session: "@ + sid, ";timeout=60"@);
    lemma_one_line_concat("Transport: "@, rtsp::transport_for(req.headers, rtp_port));
    let no = Seq::<Seq<char>>::empty();
    let none = Seq::<char>::empty();
    let (status, reason, headers, body): (nat, Seq<char>, Seq<Seq<char>>, Seq<char>) =
        if req.method == "OPTIONS"@ {
        (200, "OK"@, seq![public], none)
    } else if req.method == "GET_PARAMETER"@ && text::trimmed(req.body).len() > 0 {
        (
            200,
            "OK"@,
            no,
            text::joined(
                rtsp::parameter_lines(rtsp::queried(req.body), rtp_port),
                "\r\n"@,
            ) + "\r\n"@,
        )
    } else if req.method == "GET_PARAMETER"@ || req.method == "SET_PARAMETER"@ {
        (200, "OK"@, rtsp::session_headers(session), none)
    } else if req.method == "SETUP"@ {
        (
            200,
            "OK"@,
            seq![
                "Session: "@ + sid + ";timeout=60"@,
                "Transport: "@ + rtsp::transport_for(req.headers, rtp_port),
            ],
            none,
        )
    } else if req.method == "PLAY"@ {
        (200, "OK"@, rtsp::session_headers(session), none)
    } else if req.method == "TEARDOWN"@ {
        (200, "OK"@, no, none)
    } else {
        (501, "Not Implemented"@, no, none)
    };
    assert(answer == rtsp::response(cseq, status, reason, headers, body));
    assert forall|i: int| 0 <= i < headers.len() implies one_line(#[trigger] headers[i]) by {}
    lemma_response_parts(cseq, status, reason, headers, body);
    let head = response_head(cseq, status, reason, headers, body);
    text::lemma_encoding_of_concat(head, body);
    law_response_is_a_message(cseq, status, reason, headers, body);
    connection::law_complete_message_is_taken(head, body, none);
    assert(head + body + none =~= head + body);
}

/// Whether the sink knows a method.
pub open spec fn known_method(method: Seq<char>) -> bool {
    ||| method == "OPTIONS"@
    ||| method == "GET_PARAMETER"@
    ||| method == "SET_PARAMETER"@
    ||| method == "SETUP"@
    ||| method == "PLAY"@
    ||| method == "TEARDOWN"@
}

/// Every answer begins with its status and the `CSeq` of the request: 200
/// where the method is known and 501 where it is not.
pub proof fn law_answer_has_status_and_cseq(
    req: rtsp::RequestView,
    cseq: Seq<char>,
    rtp_port: u16,
    session: Option<Seq<char>>,
    fresh: Seq<char>,
)
    ensures
        text::occurs_at(
            rtsp::answered(req, cseq, rtp_port, session, fresh).0,
            (if known_method(req.method) {
                "RTSP/1.0 200 OK\r\nCSeq: "@
            } else {
                "RTSP/1.0 501 Not Implemented\r\nCSeq: "@
            }) + cseq + "\r\n"@,
            0,
        ),
{
    reveal_strlit("RTSP/1.0 200 OK\r\nCSeq: ");
    reveal_strlit("RTSP/1.0 501 Not Implemented\r\nCSeq: ");
    reveal_strlit("RTSP/1.0 ");
    reveal_strlit(" ");
    reveal_strlit("OK");
    reveal_strlit("Not Implemented");
    reveal_strlit("\r\n");
    reveal_strlit("CSeq: ");
    let answer = rtsp::answered(req, cseq, rtp_port, session, fresh).0;
    assert(text::decimal(200) =~= seq!['2', '0', '0']) by {
        reveal_with_fuel(text::decimal, 3);
    }
    assert(text::decimal(501) =~= seq!['5', '0', '1']) by {
        reveal_with_fuel(text::decimal, 3);
    }
    let ok = "RTSP/1.0 200 OK\r\nCSeq: "@;
    let refused = "RTSP/1.0 501 Not Implemented\r\nCSeq: "@;
    assert(ok =~= "RTSP/1.0 "@ + text::decimal(200) + " "@ + "OK"@ + "\r\n"@ + "CSeq: "@);
    assert(refused =~= "RTSP/1.0 "@ + text::decimal(501) + " "@ + "Not Implemented"@ + "\r\n"@
        + "CSeq: "@);
    let front = (if known_method(req.method) {
        ok
    } else {
        refused
    }) + cseq + "\r\n"@;
    assert(answer.subrange(0, front.len() as int) =~= front);
}

/// A session begins with `SETUP`, which keeps one that is open, and ends with
/// `TEARDOWN`; no other request changes it.
pub proof fn law_session_lifecycle(
    req: rtsp::RequestView,
    cseq: Seq<char>,
    rtp_port: u16,
    session: Option<Seq<char>>,
    fresh: Seq<char>,
)
    ensures
        rtsp::answered(req, cseq, rtp_port, session, fresh).1 == if req.method == "SETUP"@ {
            Some(
                match session {
                    Some(sid) => sid,
                    None => fresh,
                },
            )
        } else if req.method == "TEARDOWN"@ {
            None
        } else {
            session
        },
{
    reveal_strlit("OPTIONS");
    reveal_strlit("GET_PARAMETER");
    reveal_strlit("SET_PARAMETER");
    reveal_strlit("SETUP");
    reveal_strlit("PLAY");
    reveal_strlit("TEARDOWN");
    assert("SETUP"@.len() == 5 && "TEARDOWN"@.len() == 8);
}

/// The session and the answers along a list of requests; `ids` are the IDs
/// that new sessions would get.
pub open spec fn session_after(
    reqs: Seq<rtsp::RequestView>,
    rtp_port: u16,
    session: Option<Seq<char>>,
    ids: Seq<Seq<char>>,
) -> Option<Seq<char>>
    decreases reqs.len(),
{
    if reqs.len() == 0 {
        session
    } else {
        let before = session_after(reqs.drop_last(), rtp_port, session, ids);
        rtsp::answered(
            reqs.last(),
            connection::cseq_of(reqs.last()),
            rtp_port,
            before,
            ids[reqs.len() - 1],
        ).1
    }
}

/// An open session keeps its ID until `TEARDOWN`.
pub proof fn law_session_lasts_until_teardown(
    reqs: Seq<rtsp::RequestView>,
    rtp_port: u16,
    sid: Seq<char>,
    ids: Seq<Seq<char>>,
)
    requires
        forall|i: int| 0 <= i < reqs.len() ==> (#[trigger] reqs[i]).method != "TEARDOWN"@,
    ensures
        session_after(reqs, rtp_port, Some(sid), ids) == Some(sid),
    decreases reqs.len(),
{
    if reqs.len() > 0 {
        let init = reqs.drop_last();
        assert forall|i: int| 0 <= i < init.len() implies (#[trigger] init[i]).method
            != "TEARDOWN"@ by {
            assert(init[i] == reqs[i]);
        }
        law_session_lasts_until_teardown(init, rtp_port, sid, ids);
        let last = reqs.last();
        assert(reqs[reqs.len() - 1].method != "TEARDOWN"@);
        law_session_lifecycle(
            last,
            connection::cseq_of(last),
            rtp_port,
            Some(sid),
            ids[reqs.len() - 1],
        );
    }
}

/// A keep-alive, a `GET_PARAMETER` without parameters, is acknowledged
/// without a body and changes nothing.
pub proof fn law_keep_alive_is_acknowledged(
    req: rtsp::RequestView,
    cseq: Seq<char>,
    rtp_port: u16,
    session: Option<Seq<char>>,
    fresh: Seq<char>,
)
    requires
        req.method == "GET_PARAMETER"@,
        forall|i: int| 0 <= i < req.body.len() ==> text::is_space(#[trigger] req.body[i]),
    ensures
        rtsp::answered(req, cseq, rtp_port, session, fresh) == (
            rtsp::response(cseq, 200, "OK"@, rtsp::session_headers(session), seq![]),
            session,
        ),
{
    reveal_strlit("OPTIONS");
    reveal_strlit("GET_PARAMETER");
    assert("OPTIONS"@.len() != "GET_PARAMETER"@.len());
    lemma_white_space_is_trimmed(req.body);
}

/// Nothing is left of white space without the white space at its ends.
proof fn lemma_white_space_is_trimmed(s: Seq<char>)
    requires
        forall|i: int| 0 <= i < s.len() ==> text::is_space(#[trigger] s[i]),
    ensures
        text::trimmed_start(s).len() == 0,
        text::trimmed(s).len() == 0,
    decreases s.len(),
{
    if s.len() > 0 {
        let rest = s.drop_first();
        assert(text::is_space(s[0]));
        assert forall|i: int| 0 <= i < rest.len() implies text::is_space(#[trigger] rest[i]) by {
            assert(rest[i] == s[i + 1]);
        }
        lemma_white_space_is_trimmed(rest);
    }
}

/// A capability query is answered line by line: every line of the answer is
/// what the sink says of a parameter that was asked for, and every parameter
/// that was asked for and that the sink knows has its line.
pub proof fn law_query_is_answered_line_by_line(lines: Seq<Seq<char>>, rtp_port: u16)
    ensures
        forall|k: int|
            0 <= k < rtsp::parameter_lines(lines, rtp_port).len() ==> exists|i: int|
                0 <= i < lines.len() && #[trigger] rtsp::parameter_line(
                    text::trimmed(lines[i]),
                    rtp_port,
                ) == seq![#[trigger] rtsp::parameter_lines(lines, rtp_port)[k]],
        forall|i: int|
            0 <= i < lines.len() && #[trigger] rtsp::parameter_line(
                text::trimmed(lines[i]),
                rtp_port,
            ).len() > 0 ==> rtsp::parameter_lines(lines, rtp_port).contains(
                rtsp::parameter_line(text::trimmed(lines[i]), rtp_port)[0],
            ),
    decreases lines.len(),
{
    if lines.len() > 0 {
        let init = lines.drop_last();
        let n = init.len() as int;
        law_query_is_answered_line_by_line(init, rtp_port);
        let said = rtsp::parameter_lines(init, rtp_port);
        let more = rtsp::parameter_line(text::trimmed(lines[n]), rtp_port);
        let all = rtsp::parameter_lines(lines, rtp_port);
        assert(all == said + more);
        assert(more.len() <= 1);
        assert forall|k: int| 0 <= k < all.len() implies exists|i: int|
            0 <= i < lines.len() && #[trigger] rtsp::parameter_line(
                text::trimmed(lines[i]),
                rtp_port,
            ) == seq![#[trigger] all[k]] by {
            if k < said.len() {
                assert(all[k] == said[k]);
                let i = choose|i: int|
                    0 <= i < init.len() && #[trigger] rtsp::parameter_line(
                        text::trimmed(init[i]),
                        rtp_port,
                    ) == seq![said[k]];
                assert(lines[i] == init[i]);
                assert(rtsp::parameter_line(text::trimmed(lines[i]), rtp_port) == seq![all[k]]);
            } else {
                assert(more =~= seq![all[k]]);
                assert(rtsp::parameter_line(text::trimmed(lines[n]), rtp_port) == seq![all[k]]);
            }
        }
        assert forall|i: int|
            0 <= i < lines.len() && #[trigger] rtsp::parameter_line(
                text::trimmed(lines[i]),
                rtp_port,
            ).len() > 0 implies all.contains(
            rtsp::parameter_line(text::trimmed(lines[i]), rtp_port)[0],
        ) by {
            let line = rtsp::parameter_line(text::trimmed(lines[i]), rtp_port)[0];
            if i < n {
                assert(init[i] == lines[i]);
                assert(rtsp::parameter_line(text::trimmed(init[i]), rtp_port).len() > 0);
                let k = choose|k: int| 0 <= k < said.len() && said[k] == line;
                assert(all[k] == line);
            } else {
                assert(all[said.len() as int] == line);
            }
        }
    }
}

/// What stands in a text still does with more text around it.
proof fn lemma_occurs_within(before: Seq<char>, s: Seq<char>, after: Seq<char>, needle: Seq<char>)
    requires
        text::occurs(s, needle),
    ensures
        text::occurs(before + s + after, needle),
{
    let i = choose|i: int| text::occurs_at(s, needle, i);
    let all = before + s + after;
    let j = before.len() + i;
    assert(all.subrange(j, j + needle.len()) =~= s.subrange(i, i + needle.len()));
    assert(text::occurs_at(all, needle, j));
}

/// Each part stands in what they are joined to.
proof fn lemma_occurs_in_joined(parts: Seq<Seq<char>>, sep: Seq<char>, k: int)
    requires
        0 <= k < parts.len(),
    ensures
        text::occurs(text::joined(parts, sep), parts[k]),
    decreases parts.len(),
{
    let none = Seq::<char>::empty();
    let part = parts[k];
    assert(text::occurs(part, part)) by {
        assert(part.subrange(0, part.len() as int) =~= part);
        assert(text::occurs_at(part, part, 0));
    }
    if parts.len() > 1 {
        let init = parts.drop_last();
        let front = text::joined(init, sep);
        let all = text::joined(parts, sep);
        if k == parts.len() - 1 {
            lemma_occurs_within(front + sep, part, none, part);
            assert(front + sep + part + none =~= all);
        } else {
            lemma_occurs_in_joined(init, sep, k);
            assert(init[k] == part);
            lemma_occurs_within(none, front, sep + parts.last(), part);
            assert(none + front + (sep + parts.last()) =~= all);
        }
    }
}

/// A source that asks whether content is protected is told that it is not,
/// whatever else it asks for.
pub proof fn law_content_is_not_protected(
    req: rtsp::RequestView,
    cseq: Seq<char>,
    rtp_port: u16,
    session: Option<Seq<char>>,
    fresh: Seq<char>,
    i: int,
)
    requires
        req.method == "GET_PARAMETER"@,
        0 <= i < rtsp::queried(req.body).len(),
        text::trimmed(rtsp::queried(req.body)[i]) == "wfd_content_protection"@,
    ensures
        text::occurs(
            rtsp::answered(req, cseq, rtp_port, session, fresh).0,
            "wfd_content_protection: none"@,
        ),
{
    reveal_strlit("OPTIONS");
    reveal_strlit("GET_PARAMETER");
    assert("OPTIONS"@.len() != "GET_PARAMETER"@.len());
    let lines = rtsp::queried(req.body);
    let said = rtsp::parameter_lines(lines, rtp_port);
    let line = "wfd_content_protection: none"@;
    law_query_is_answered_line_by_line(lines, rtp_port);
    assert(rtsp::parameter_line(text::trimmed(lines[i]), rtp_port).len() > 0);
    let k = choose|k: int| 0 <= k < said.len() && said[k] == line;
    lemma_occurs_in_joined(said, "\r\n"@, k);
    let none = Seq::<char>::empty();
    let joined = text::joined(said, "\r\n"@);
    let body = joined + "\r\n"@;
    let answer = rtsp::answered(req, cseq, rtp_port, session, fresh).0;
    assert(text::trimmed(req.body).len() > 0);
    assert(answer == rtsp::response(cseq, 200, "OK"@, seq![], body));
    let front = answer.take(answer.len() - body.len());
    lemma_occurs_within(front, joined, "\r\n"@, line);
    assert(front + joined + "\r\n"@ =~= answer);
}

// ---------------------------------------------------------------------------
// Session IDs
// ---------------------------------------------------------------------------

/// A session ID is sent as sixteen lower-case hexadecimal digits.
pub proof fn law_session_id_is_sixteen_digits(id: u64)
    ensures
        rtsp::session_text(id).len() == 16,
        forall|i: int|
            0 <= i < 16 ==> {
                let c = #[trigger] rtsp::session_text(id)[i];
                '0' <= c <= '9' || 'a' <= c <= 'f'
            },
{
    lemma_hex_fixed(id as nat, 16);
}

/// Different session IDs are sent as different texts.
pub proof fn law_session_ids_differ(a: u64, b: u64)
    requires
        rtsp::session_text(a) == rtsp::session_text(b),
    ensures
        a == b,
{
    assert(pow16(16) == 0x1_0000_0000_0000_0000) by {
        reveal_with_fuel(pow16, 17);
    }
    lemma_hex_fixed_differ(a as nat, b as nat, 16);
}

/// A power of sixteen.
spec fn pow16(k: nat) -> nat
    decreases k,
{
    if k == 0 {
        1
    } else {
        16 * pow16((k - 1) as nat)
    }
}

/// The digits of a number of fixed width.
proof fn lemma_hex_fixed(n: nat, width: nat)
    ensures
        text::hex_fixed(n, width).len() == width,
        forall|i: int|
            0 <= i < width ==> {
                let c = #[trigger] text::hex_fixed(n, width)[i];
                '0' <= c <= '9' || 'a' <= c <= 'f'
            },
    decreases width,
{
    if width > 0 {
        lemma_hex_fixed(n / 16, (width - 1) as nat);
        let front = text::hex_fixed(n / 16, (width - 1) as nat);
        assert forall|i: int| 0 <= i < width implies {
            let c = #[trigger] text::hex_fixed(n, width)[i];
            '0' <= c <= '9' || 'a' <= c <= 'f'
        } by {
            if i < width - 1 {
                assert(text::hex_fixed(n, width)[i] == front[i]);
            }
        }
    }
}

/// Numbers that fit the width are told apart by their digits.
proof fn lemma_hex_fixed_differ(a: nat, b: nat, width: nat)
    requires
        a < pow16(width),
        b < pow16(width),
        text::hex_fixed(a, width) == text::hex_fixed(b, width),
    ensures
        a == b,
    decreases width,
{
    if width > 0 {
        let w = (width - 1) as nat;
        let x = text::hex_fixed(a, width);
        let y = text::hex_fixed(b, width);
        lemma_hex_fixed(a / 16, w);
        lemma_hex_fixed(b / 16, w);
        assert(x.drop_last() =~= text::hex_fixed(a / 16, w));
        assert(y.drop_last() =~= text::hex_fixed(b / 16, w));
        assert(x.last() == text::hex_digit((a % 16) as int));
        assert(y.last() == text::hex_digit((b % 16) as int));
        lemma_hex_fixed_differ(a / 16, b / 16, w);
    }
}

// ---------------------------------------------------------------------------
// Requests
// ---------------------------------------------------------------------------

/// The line that spells a header.
pub open spec fn header_line(header: (Seq<char>, Seq<char>)) -> Seq<char> {
    header.0 + ": "@ + header.1
}

/// The text of a request.
pub open spec fn request_text(
    method: Seq<char>,
    uri: Seq<char>,
    version: Seq<char>,
    headers: Seq<(Seq<char>, Seq<char>)>,
    body: Seq<char>,
) -> Seq<char> {
    block(
        seq![method + " "@ + uri + " "@ + version] + headers.map_values(
            |h: (Seq<char>, Seq<char>)| header_line(h),
        ),
    ) + "\r\n"@ + body
}

/// Whether a header can be spelt on a line of its own and read back: its name
/// has no colon, and neither part has white space at its ends.
pub open spec fn spellable(header: (Seq<char>, Seq<char>)) -> bool {
    &&& one_line(header.0)
    &&& one_line(header.1)
    &&& !header.0.contains(':')
    &&& text::trimmed(header.0) == header.0
    &&& text::trimmed(header.1) == header.1
}

/// A header is read back from its line.
proof fn lemma_header_line(header: (Seq<char>, Seq<char>))
    requires
        spellable(header),
    ensures
        one_line(header_line(header)),
        header_line(header).len() > 0,
        rtsp::header_in(header_line(header)) == seq![header],
{
    reveal_strlit(": ");
    let (name, value) = header;
    let line = header_line(header);
    assert(one_line(": "@));
    lemma_one_line_concat(name, ": "@);
    lemma_one_line_concat(name + ": "@, value);
    let k = name.len() as int;
    assert forall|j: int| 0 <= j < k implies line[j] != ':' by {
        assert(line[j] == name[j]);
    }
    assert(line[k] == ':');
    text::lemma_find_char_is(line, ':', k);
    assert(line.take(k) =~= name);
    let after = line.skip(k + 1);
    assert(after[0] == ' ');
    assert(after.drop_first() =~= value);
    assert(text::trimmed_start(after) == text::trimmed_start(value));
}

/// Headers are read back from their lines.
proof fn lemma_header_block(headers: Seq<(Seq<char>, Seq<char>)>, after: Seq<Seq<char>>)
    requires
        forall|i: int| 0 <= i < headers.len() ==> spellable(#[trigger] headers[i]),
    ensures
        ({
            let lines = headers.map_values(|h: (Seq<char>, Seq<char>)| header_line(h));
            let blank = Seq::<char>::empty();
            &&& forall|i: int|
                0 <= i < lines.len() ==> one_line(#[trigger] lines[i]) && lines[i].len() > 0
            &&& rtsp::headers_in(lines.push(blank) + after) == headers
            &&& rtsp::body_lines(lines.push(blank) + after) == after
        }),
    decreases headers.len(),
{
    let lines = headers.map_values(|h: (Seq<char>, Seq<char>)| header_line(h));
    let all = lines.push(seq![]) + after;
    assert forall|i: int| 0 <= i < lines.len() implies one_line(#[trigger] lines[i])
        && lines[i].len() > 0 by {
        assert(spellable(headers[i]));
        lemma_header_line(headers[i]);
    }
    if headers.len() == 0 {
        assert(all[0].len() == 0);
        assert(all.drop_first() =~= after);
        assert(rtsp::headers_in(all) =~= headers);
    } else {
        let rest = headers.drop_first();
        assert forall|i: int| 0 <= i < rest.len() implies spellable(#[trigger] rest[i]) by {
            assert(rest[i] == headers[i + 1]);
        }
        lemma_header_block(rest, after);
        let rest_lines = rest.map_values(|h: (Seq<char>, Seq<char>)| header_line(h));
        assert(all[0] == lines[0]);
        assert(all.drop_first() =~= rest_lines.push(seq![]) + after);
        assert(spellable(headers[0]));
        lemma_header_line(headers[0]);
        assert(rtsp::headers_in(all) =~= headers);
    }
}

/// A request is read back from its text: the method, the URI, the headers in
/// their order, and the body with its lines joined by CR LF.
pub proof fn law_request_is_read_back(
    method: Seq<char>,
    uri: Seq<char>,
    version: Seq<char>,
    headers: Seq<(Seq<char>, Seq<char>)>,
    body: Seq<char>,
)
    requires
        one_line(method),
        one_line(uri),
        one_line(version),
        !method.contains(' '),
        !uri.contains(' '),
        forall|i: int| 0 <= i < headers.len() ==> spellable(#[trigger] headers[i]),
    ensures
        rtsp::parsed(request_text(method, uri, version, headers, body)) == Some(
            rtsp::RequestView {
                method,
                uri,
                headers,
                body: text::joined(text::lines_of(body), "\r\n"@),
            },
        ),
{
    reveal_strlit(" ");
    let space = " "@;
    let first = method + space + uri + space + version;
    let header_lines = headers.map_values(|h: (Seq<char>, Seq<char>)| header_line(h));
    let lines = seq![first] + header_lines;
    let after = text::lines_of(body);
    assert(one_line(space));
    lemma_one_line_concat(method, space);
    lemma_one_line_concat(method + space, uri);
    lemma_one_line_concat(method + space + uri, space);
    lemma_one_line_concat(method + space + uri + space, version);
    lemma_header_block(headers, after);
    assert forall|i: int| 0 <= i < lines.len() implies one_line(#[trigger] lines[i]) by {
        if i > 0 {
            assert(lines[i] == header_lines[i - 1]);
        }
    }
    lemma_lines_of_block(lines, body);
    let seen = text::lines_of(request_text(method, uri, version, headers, body));
    assert(seen[0] == first);
    assert(seen.drop_first() =~= header_lines.push(seq![]) + after);
    let a = method.len() as int;
    assert forall|j: int| 0 <= j < a implies first[j] != ' ' by {
        assert(first[j] == method[j]);
    }
    assert(first[a] == ' ');
    text::lemma_find_char_is(first, ' ', a);
    let rest = first.skip(a + 1);
    assert(rest =~= uri + space + version);
    let b = uri.len() as int;
    assert forall|j: int| 0 <= j < b implies rest[j] != ' ' by {
        assert(rest[j] == uri[j]);
    }
    assert(rest[b] == ' ');
    text::lemma_find_char_is(rest, ' ', b);
    assert(first.take(a) =~= method);
    assert(rest.take(b) =~= uri);
}

/// The case of letters in a header's name does not matter.
pub proof fn law_header_names_ignore_case(
    headers: Seq<(Seq<char>, Seq<char>)>,
    a: Seq<char>,
    b: Seq<char>,
)
    requires
        text::lowered(a) == text::lowered(b),
    ensures
        rtsp::header_value(headers, a) == rtsp::header_value(headers, b),
    decreases headers.len(),
{
    if headers.len() > 0 {
        law_header_names_ignore_case(headers.drop_first(), a, b);
    }
}

/// A request whose headers declare its body reaches the sink as it was meant,
/// however its bytes are cut into reads.
pub proof fn law_request_reaches_the_sink(
    c: connection::ConnectionView,
    method: Seq<char>,
    uri: Seq<char>,
    version: Seq<char>,
    headers: Seq<(Seq<char>, Seq<char>)>,
    body: Seq<char>,
    chunks: Seq<Seq<u8>>,
)
    requires
        c.pending.len() == 0,
        !c.awaiting_reply,
        one_line(method),
        one_line(uri),
        one_line(version),
        !method.contains(' '),
        !uri.contains(' '),
        forall|i: int| 0 <= i < headers.len() ==> spellable(#[trigger] headers[i]),
        rtsp::declared_length(headers) == text::byte_len(body),
        text::byte_len(request_text(method, uri, version, headers, body))
            <= connection::MAX_MSG_BYTES,
        connection::all_bytes(chunks) == vstd::utf8::encode_utf8(
            request_text(method, uri, version, headers, body),
        ),
        forall|j: int| 0 <= j < chunks.len() ==> #[trigger] chunks[j].len() > 0,
    ensures
        connection::after_reads(c, chunks) == (
            c,
            connection::IntakeView::Request(
                rtsp::RequestView {
                    method,
                    uri,
                    headers,
                    body: text::joined(text::lines_of(body), "\r\n"@),
                },
            ),
        ),
{
    let none = Seq::<char>::empty();
    let lines = seq![method + " "@ + uri + " "@ + version] + headers.map_values(
        |h: (Seq<char>, Seq<char>)| header_line(h),
    );
    let head = block(lines) + "\r\n"@;
    let whole = request_text(method, uri, version, headers, body);
    assert(whole == head + body);
    assert(connection::is_message(head, body)) by {
        lemma_request_head(method, uri, version, headers);
        law_request_is_read_back(method, uri, version, headers, none);
        assert(head + none =~= head);
    }
    law_request_is_read_back(method, uri, version, headers, body);
    connection::law_message_is_taken_once_whole(c, head, body, chunks);
    connection::law_complete_message_is_taken(head, body, none);
    assert(head + body + none =~= head + body);
    assert(c.pending =~= seq![]);
    assert(c.pending + vstd::utf8::encode_utf8(whole) =~= vstd::utf8::encode_utf8(whole));
}

/// The head of a request ends with its first empty line.
proof fn lemma_request_head(
    method: Seq<char>,
    uri: Seq<char>,
    version: Seq<char>,
    headers: Seq<(Seq<char>, Seq<char>)>,
)
    requires
        one_line(method),
        one_line(uri),
        one_line(version),
        forall|i: int| 0 <= i < headers.len() ==> spellable(#[trigger] headers[i]),
    ensures
        connection::is_head(
            block(
                seq![method + " "@ + uri + " "@ + version] + headers.map_values(
                    |h: (Seq<char>, Seq<char>)| header_line(h),
                ),
            ) + "\r\n"@,
        ),
{
    reveal_strlit(" ");
    let space = " "@;
    let header_lines = headers.map_values(|h: (Seq<char>, Seq<char>)| header_line(h));
    let lines = seq![method + space + uri + space + version] + header_lines;
    assert(one_line(space));
    lemma_one_line_concat(method, space);
    lemma_one_line_concat(method + space, uri);
    lemma_one_line_concat(method + space + uri, space);
    lemma_one_line_concat(method + space + uri + space, version);
    lemma_header_block(headers, seq![]);
    assert forall|i: int| 0 <= i < lines.len() implies one_line(#[trigger] lines[i])
        && lines[i].len() > 0 by {
        if i > 0 {
            assert(lines[i] == header_lines[i - 1]);
        }
    }
    lemma_block_is_head(lines);
}

// ---------------------------------------------------------------------------
// Headers
// ---------------------------------------------------------------------------

/// Whether the header at index `i` is the first one called `name`, letter by
/// letter up to their case.
pub open spec fn first_called(
    headers: Seq<(Seq<char>, Seq<char>)>,
    name: Seq<char>,
    i: int,
) -> bool {
    &&& 0 <= i < headers.len()
    &&& text::same_name(headers[i].0, name)
    &&& forall|j: int| 0 <= j < i ==> !text::same_name(#[trigger] headers[j].0, name)
}

/// Wherever the first header of a name stands, its value is the one found.
pub proof fn law_header_is_found(headers: Seq<(Seq<char>, Seq<char>)>, name: Seq<char>, i: int)
    requires
        first_called(headers, name, i),
    ensures
        rtsp::header_value(headers, name) == Some(headers[i].1),
    decreases headers.len(),
{
    text::law_lowered(headers[0].0, name);
    if i > 0 {
        let rest = headers.drop_first();
        assert(rest[i - 1] == headers[i]);
        assert(!text::same_name(headers[0].0, name));
        assert forall|j: int| 0 <= j < i - 1 implies !text::same_name(
            #[trigger] rest[j].0,
            name,
        ) by {
            assert(rest[j] == headers[j + 1]);
        }
        law_header_is_found(rest, name, i - 1);
    }
}

/// There is no value exactly where no header has the name.
pub proof fn law_header_is_missing(headers: Seq<(Seq<char>, Seq<char>)>, name: Seq<char>)
    ensures
        rtsp::header_value(headers, name) is None <==> (forall|j: int|
            0 <= j < headers.len() ==> !text::same_name(#[trigger] headers[j].0, name)),
    decreases headers.len(),
{
    if headers.len() > 0 {
        let rest = headers.drop_first();
        text::law_lowered(headers[0].0, name);
        law_header_is_missing(rest, name);
        if forall|j: int|
            0 <= j < headers.len() ==> !text::same_name(#[trigger] headers[j].0, name) {
            assert(!text::same_name(headers[0].0, name));
            assert forall|j: int| 0 <= j < rest.len() implies !text::same_name(
                #[trigger] rest[j].0,
                name,
            ) by {
                assert(rest[j] == headers[j + 1]);
            }
        }
        if rtsp::header_value(headers, name) is None {
            assert forall|j: int| 0 <= j < headers.len() implies !text::same_name(
                #[trigger] headers[j].0,
                name,
            ) by {
                if j > 0 {
                    assert(rest[j - 1] == headers[j]);
                }
            }
        }
    }
}

/// What `RtspRequest::header` gives: the value of the first header of that
/// name, wherever it stands, and nothing exactly where there is none.
pub proof fn law_header(req: &rtsp::RtspRequest, name: &str, r: Option<&str>, i: int)
    requires
        call_ensures(rtsp::RtspRequest::header, (req, name), r),
    ensures
        0 <= i < req.headers@.len() && text::same_name(req.headers@[i].0@, name@) && (forall|j: int|
            0 <= j < i ==> !text::same_name(#[trigger] req.headers@[j].0@, name@)) ==> r is Some
            && r->0@ == req.headers@[i].1@,
        r is None <==> (forall|j: int|
            0 <= j < req.headers@.len() ==> !text::same_name(
                #[trigger] req.headers@[j].0@,
                name@,
            )),
{
    let headers = req@.headers;
    assert forall|j: int| 0 <= j < headers.len() implies (#[trigger] headers[j]).0
        == req.headers@[j].0@ && headers[j].1 == req.headers@[j].1@ by {}
    law_header_is_missing(headers, name@);
    if 0 <= i < req.headers@.len() && text::same_name(req.headers@[i].0@, name@) && (forall|j: int|
        0 <= j < i ==> !text::same_name(#[trigger] req.headers@[j].0@, name@)) {
        assert(first_called(headers, name@, i)) by {
            assert forall|j: int| 0 <= j < i implies !text::same_name(
                #[trigger] headers[j].0,
                name@,
            ) by {
                assert(!text::same_name(req.headers@[j].0@, name@));
            }
        }
        law_header_is_found(headers, name@, i);
    }
    if forall|j: int|
        0 <= j < req.headers@.len() ==> !text::same_name(#[trigger] req.headers@[j].0@, name@) {
        assert forall|j: int| 0 <= j < headers.len() implies !text::same_name(
            #[trigger] headers[j].0,
            name@,
        ) by {
            assert(!text::same_name(req.headers@[j].0@, name@));
        }
    }
    if r is None {
        assert forall|j: int| 0 <= j < req.headers@.len() implies !text::same_name(
            #[trigger] req.headers@[j].0@,
            name@,
        ) by {
            assert(!text::same_name(headers[j].0, name@));
        }
    }
}

/// The length that headers declare is the number of the last `Content-Length`,
/// wherever it stands; no bytes where that is no number, or where there is none.
pub proof fn law_declared_length(headers: Seq<(Seq<char>, Seq<char>)>, i: int)
    ensures
        0 <= i < headers.len() && text::same_name(headers[i].0, "Content-Length"@) && (forall|
            j: int,
        |
            i < j < headers.len() ==> !text::same_name(#[trigger] headers[j].0, "Content-Length"@))
            ==> rtsp::declared_length(headers) == match text::unsigned(
            headers[i].1,
            usize::MAX as nat,
        ) {
            Some(n) => n,
            None => 0,
        },
        (forall|j: int|
            0 <= j < headers.len() ==> !text::same_name(#[trigger] headers[j].0, "Content-Length"@))
            ==> rtsp::declared_length(headers) == 0,
    decreases headers.len(),
{
    if headers.len() > 0 {
        let n = headers.len() - 1;
        let init = headers.drop_last();
        assert(text::lowered("Content-Length"@) == text::lowered("content-length"@)) by {
            reveal_strlit("Content-Length");
            reveal_strlit("content-length");
            assert(text::lowered("Content-Length"@) =~= text::lowered("content-length"@));
        }
        text::law_lowered(headers[n].0, "Content-Length"@);
        law_declared_length(init, i);
        if !text::same_name(headers[n].0, "Content-Length"@) {
            assert forall|j: int| 0 <= j < init.len() implies init[j] == #[trigger] headers[j] by {}
            if 0 <= i < headers.len() && text::same_name(headers[i].0, "Content-Length"@) && (
            forall|j: int|
                i < j < headers.len() ==> !text::same_name(
                    #[trigger] headers[j].0,
                    "Content-Length"@,
                )) {
                assert(i < n);
                assert(init[i] == headers[i]);
                assert forall|j: int| i < j < init.len() implies !text::same_name(
                    #[trigger] init[j].0,
                    "Content-Length"@,
                ) by {
                    assert(init[j] == headers[j]);
                }
            }
            if forall|j: int|
                0 <= j < headers.len() ==> !text::same_name(
                    #[trigger] headers[j].0,
                    "Content-Length"@,
                ) {
                assert forall|j: int| 0 <= j < init.len() implies !text::same_name(
                    #[trigger] init[j].0,
                    "Content-Length"@,
                ) by {
                    assert(init[j] == headers[j]);
                }
            }
        } else if forall|j: int|
            0 <= j < headers.len() ==> !text::same_name(
                #[trigger] headers[j].0,
                "Content-Length"@,
            ) {
            assert(!text::same_name(headers[n].0, "Content-Length"@));
        } else if 0 <= i < headers.len() && (forall|j: int|
            i < j < headers.len() ==> !text::same_name(#[trigger] headers[j].0, "Content-Length"@)) {
            if i < n {
                assert(!text::same_name(headers[n].0, "Content-Length"@));
            }
        }
    }
}

/// A line is a header exactly where it has a colon: the name is what stands
/// before the first one and the value what stands after it, both trimmed.
pub proof fn law_header_in(name: Seq<char>, value: Seq<char>)
    requires
        !name.contains(':'),
    ensures
        rtsp::header_in(name + seq![':'] + value) == seq![
            (text::trimmed(name), text::trimmed(value)),
        ],
        rtsp::header_in(name) == Seq::<(Seq<char>, Seq<char>)>::empty(),
{
    let k = name.len() as int;
    let line = name + seq![':'] + value;
    assert forall|j: int| 0 <= j < k implies name[j] != ':' by {}
    text::lemma_find_char_is(name, ':', k);
    assert forall|j: int| 0 <= j < k implies line[j] != ':' by {
        assert(line[j] == name[j]);
    }
    assert(line[k] == ':');
    text::lemma_find_char_is(line, ':', k);
    assert(line.take(k) =~= name);
    assert(line.skip(k + 1) =~= value);
}

/// The lines up to the first empty one hold the headers, in their order; the
/// lines after it are the body.
pub proof fn law_head_and_body(head: Seq<Seq<char>>, body: Seq<Seq<char>>)
    requires
        forall|i: int| 0 <= i < head.len() ==> (#[trigger] head[i]).len() > 0,
    ensures
        rtsp::body_lines(head.push(seq![]) + body) == body,
        rtsp::body_lines(head) == Seq::<Seq<char>>::empty(),
        rtsp::headers_in(head.push(seq![]) + body) == rtsp::headers_in(head),
        head.len() > 0 ==> rtsp::headers_in(head) == rtsp::headers_in(head.drop_last())
            + rtsp::header_in(head.last()),
        rtsp::headers_in(seq![]) == Seq::<(Seq<char>, Seq<char>)>::empty(),
    decreases head.len(),
{
    let all = head.push(seq![]) + body;
    if head.len() == 0 {
        assert(all.drop_first() =~= body);
    } else {
        let rest = head.drop_first();
        assert forall|i: int| 0 <= i < rest.len() implies (#[trigger] rest[i]).len() > 0 by {
            assert(rest[i] == head[i + 1]);
        }
        law_head_and_body(rest, body);
        assert(head[0].len() > 0);
        assert(all[0] == head[0]);
        assert(all.drop_first() =~= rest.push(seq![]) + body);
        let init = head.drop_last();
        if head.len() == 1 {
            assert(rest =~= seq![]);
            assert(init =~= seq![]);
            assert(rtsp::headers_in(head) =~= rtsp::headers_in(init) + rtsp::header_in(
                head.last(),
            ));
        } else {
            assert(init[0] == head[0]);
            assert(init.drop_first() =~= rest.drop_last());
            assert(rest.last() == head.last());
            assert(rtsp::headers_in(head) =~= rtsp::headers_in(init) + rtsp::header_in(
                head.last(),
            ));
        }
    }
}

/// A text is a request exactly where its first line has a space: the method is
/// what stands before the first space, and the URI what stands between it and
/// the next one or the end of the line.
pub proof fn law_request_line(raw: Seq<char>)
    ensures
        rtsp::parsed(raw) is None <==> text::lines_of(raw).len() == 0 || !text::lines_of(
            raw,
        )[0].contains(' '),
        rtsp::parsed(raw) matches Some(q) ==> {
            let lines = text::lines_of(raw);
            &&& !q.method.contains(' ')
            &&& !q.uri.contains(' ')
            &&& lines[0] == q.method + " "@ + q.uri || exists|version: Seq<char>|
                lines[0] == #[trigger] (q.method + " "@ + q.uri + " "@ + version)
            &&& q.headers == rtsp::headers_in(lines.drop_first())
            &&& q.body == text::joined(rtsp::body_lines(lines.drop_first()), "\r\n"@)
        },
{
    reveal_strlit(" ");
    let lines = text::lines_of(raw);
    if lines.len() > 0 {
        let first = lines[0];
        text::lemma_find_char(first, ' ');
        let a = text::find_char(first, ' ');
        if a < first.len() {
            assert(first[a] == ' ');
            let rest = first.skip(a + 1);
            text::lemma_find_char(rest, ' ');
            let b = text::find_char(rest, ' ');
            let method = first.take(a);
            let uri = rest.take(b);
            assert forall|j: int| 0 <= j < method.len() implies method[j] != ' ' by {
                assert(method[j] == first[j]);
            }
            assert forall|j: int| 0 <= j < uri.len() implies uri[j] != ' ' by {
                assert(uri[j] == rest[j]);
            }
            if b < rest.len() {
                let version = rest.skip(b + 1);
                assert(first =~= method + " "@ + uri + " "@ + version);
            } else {
                assert(first =~= method + " "@ + uri);
            }
        }
    }
}

// ---------------------------------------------------------------------------
// Answers on the wire
// ---------------------------------------------------------------------------

/// A response without a body: status line, `CSeq`, `Server`, the headers given
/// and a length of zero, each on its line, and an empty line.
proof fn lemma_bare_response(
    cseq: Seq<char>,
    headers: Seq<Seq<char>>,
)
    ensures
        rtsp::response(cseq, 200, "OK"@, headers, seq![]) == "RTSP/1.0 200 OK\r\nCSeq: "@ + cseq
            + "\r\nServer: nicocast/1.0\r\n"@ + rtsp::header_lines(headers)
            + "Content-Length: 0\r\n\r\n"@,
        rtsp::response(cseq, 501, "Not Implemented"@, headers, seq![])
            == "RTSP/1.0 501 Not Implemented\r\nCSeq: "@ + cseq
            + "\r\nServer: nicocast/1.0\r\n"@ + rtsp::header_lines(headers)
            + "Content-Length: 0\r\n\r\n"@,
{
    reveal_strlit("RTSP/1.0 200 OK\r\nCSeq: ");
    reveal_strlit("RTSP/1.0 501 Not Implemented\r\nCSeq: ");
    reveal_strlit("\r\nServer: nicocast/1.0\r\n");
    reveal_strlit("Server: nicocast/1.0\r\n");
    reveal_strlit("Content-Length: 0\r\n\r\n");
    reveal_strlit("Content-Length: 0\r\n");
    reveal_strlit("RTSP/1.0 ");
    reveal_strlit(" ");
    reveal_strlit("OK");
    reveal_strlit("Not Implemented");
    reveal_strlit("\r\n");
    reveal_strlit("CSeq: ");
    assert(text::decimal(200) =~= seq!['2', '0', '0']) by {
        reveal_with_fuel(text::decimal, 3);
    }
    assert(text::decimal(501) =~= seq!['5', '0', '1']) by {
        reveal_with_fuel(text::decimal, 3);
    }
    let crlf = "\r\n"@;
    let ok = "RTSP/1.0 200 OK\r\nCSeq: "@;
    let refused = "RTSP/1.0 501 Not Implemented\r\nCSeq: "@;
    let server = crlf + "Server: nicocast/1.0\r\n"@;
    assert(ok =~= "RTSP/1.0 "@ + text::decimal(200) + " "@ + "OK"@ + crlf + "CSeq: "@);
    assert(refused =~= "RTSP/1.0 "@ + text::decimal(501) + " "@ + "Not Implemented"@ + crlf
        + "CSeq: "@);
    assert(server =~= "\r\nServer: nicocast/1.0\r\n"@);
    let end = "Content-Length: 0\r\n"@ + crlf;
    assert(end =~= "Content-Length: 0\r\n\r\n"@);
    let lines = rtsp::header_lines(headers);
    assert(rtsp::response(cseq, 200, "OK"@, headers, seq![]) =~= ok + cseq + server + lines + end);
    assert(rtsp::response(cseq, 501, "Not Implemented"@, headers, seq![]) =~= refused + cseq
        + server + lines + end);
}

/// `OPTIONS` is answered with the methods that the sink supports.
pub proof fn law_options_on_the_wire(
    req: rtsp::RequestView,
    cseq: Seq<char>,
    rtp_port: u16,
    session: Option<Seq<char>>,
    fresh: Seq<char>,
)
    requires
        req.method == "OPTIONS"@,
    ensures
        rtsp::answered(req, cseq, rtp_port, session, fresh) == (
            "RTSP/1.0 200 OK\r\nCSeq: "@ + cseq + "\r\nServer: nicocast/1.0\r\n"@
                + "Public: org.wfa.wfd1.0, GET_PARAMETER, SET_PARAMETER, SETUP, PLAY, TEARDOWN"@
                + "\r\n"@ + "Content-Length: 0\r\n\r\n"@,
            session,
        ),
{
    let public = "Public: org.wfa.wfd1.0, GET_PARAMETER, SET_PARAMETER, SETUP, PLAY, TEARDOWN"@;
    reveal_strlit("Public: org.wfa.wfd1.0, GET_PARAMETER, SET_PARAMETER, SETUP, PLAY, TEARDOWN");
    let headers = seq![public];
    lemma_bare_response(cseq, headers);
    lemma_one_header(public);
    assert("RTSP/1.0 200 OK\r\nCSeq: "@ + cseq + "\r\nServer: nicocast/1.0\r\n"@ + (public
        + "\r\n"@) + "Content-Length: 0\r\n\r\n"@ =~= "RTSP/1.0 200 OK\r\nCSeq: "@ + cseq
        + "\r\nServer: nicocast/1.0\r\n"@ + public + "\r\n"@ + "Content-Length: 0\r\n\r\n"@);
}

/// One header makes one line.
proof fn lemma_one_header(header: Seq<char>)
    requires
        header.len() > 0,
    ensures
        rtsp::header_lines(seq![header]) == header + "\r\n"@,
        rtsp::header_lines(seq![]) == Seq::<char>::empty(),
{
    assert(seq![header].drop_last() =~= Seq::<Seq<char>>::empty());
    reveal_with_fuel(rtsp::header_lines, 2);
    assert(rtsp::header_lines(seq![header]) =~= header + "\r\n"@);
}

/// A keep-alive, `SET_PARAMETER` and `PLAY` are acknowledged without a body;
/// the answer names the session where there is one.
pub proof fn law_acknowledgement_on_the_wire(
    req: rtsp::RequestView,
    cseq: Seq<char>,
    rtp_port: u16,
    session: Option<Seq<char>>,
    fresh: Seq<char>,
)
    requires
        req.method == "SET_PARAMETER"@ || req.method == "PLAY"@ || (req.method
            == "GET_PARAMETER"@ && forall|i: int|
            0 <= i < req.body.len() ==> text::is_space(#[trigger] req.body[i])),
    ensures
        rtsp::answered(req, cseq, rtp_port, session, fresh) == (
            "RTSP/1.0 200 OK\r\nCSeq: "@ + cseq + "\r\nServer: nicocast/1.0\r\n"@ + (
            match session {
                Some(sid) => "Session: "@ + sid + "\r\n"@,
                None => seq![],
            }) + "Content-Length: 0\r\n\r\n"@,
            session,
        ),
{
    reveal_strlit("OPTIONS");
    reveal_strlit("GET_PARAMETER");
    reveal_strlit("SET_PARAMETER");
    reveal_strlit("SETUP");
    reveal_strlit("PLAY");
    reveal_strlit("Session: ");
    assert("GET_PARAMETER"@[0] == 'G' && "SET_PARAMETER"@[0] == 'S');
    assert("OPTIONS"@.len() == 7 && "GET_PARAMETER"@.len() == 13 && "PLAY"@.len() == 4
        && "SETUP"@.len() == 5 && "SET_PARAMETER"@.len() == 13);
    if req.method == "GET_PARAMETER"@ {
        lemma_white_space_is_trimmed(req.body);
    }
    lemma_bare_response(cseq, rtsp::session_headers(session));
    match session {
        Some(sid) => {
            lemma_one_header("Session: "@ + sid);
        },
        None => {
            lemma_one_header("Session: "@);
        },
    }
}

/// `TEARDOWN` is acknowledged without a session, and an unknown method is
/// refused.
pub proof fn law_other_answers_on_the_wire(
    req: rtsp::RequestView,
    cseq: Seq<char>,
    rtp_port: u16,
    session: Option<Seq<char>>,
    fresh: Seq<char>,
)
    ensures
        req.method == "TEARDOWN"@ ==> rtsp::answered(req, cseq, rtp_port, session, fresh) == (
            "RTSP/1.0 200 OK\r\nCSeq: "@ + cseq + "\r\nServer: nicocast/1.0\r\n"@
                + "Content-Length: 0\r\n\r\n"@,
            None::<Seq<char>>,
        ),
        !known_method(req.method) ==> rtsp::answered(req, cseq, rtp_port, session, fresh) == (
            "RTSP/1.0 501 Not Implemented\r\nCSeq: "@ + cseq
                + "\r\nServer: nicocast/1.0\r\n"@ + "Content-Length: 0\r\n\r\n"@,
            session,
        ),
{
    reveal_strlit("OPTIONS");
    reveal_strlit("GET_PARAMETER");
    reveal_strlit("SET_PARAMETER");
    reveal_strlit("SETUP");
    reveal_strlit("PLAY");
    reveal_strlit("TEARDOWN");
    assert("OPTIONS"@.len() == 7 && "GET_PARAMETER"@.len() == 13 && "PLAY"@.len() == 4
        && "SETUP"@.len() == 5 && "SET_PARAMETER"@.len() == 13 && "TEARDOWN"@.len() == 8);
    let no = Seq::<Seq<char>>::empty();
    lemma_bare_response(cseq, no);
    let front = "RTSP/1.0 200 OK\r\nCSeq: "@ + cseq + "\r\nServer: nicocast/1.0\r\n"@;
    let refused = "RTSP/1.0 501 Not Implemented\r\nCSeq: "@ + cseq
        + "\r\nServer: nicocast/1.0\r\n"@;
    assert(rtsp::header_lines(no) =~= Seq::<char>::empty());
    assert(front + rtsp::header_lines(no) =~= front);
    assert(refused + rtsp::header_lines(no) =~= refused);
}

/// The answer to a request holds, right after its status line, the whole value
/// of the request's first `CSeq`, and `0` where it has none.
pub proof fn law_answer_echoes_cseq(
    req: rtsp::RequestView,
    i: int,
    rtp_port: u16,
    session: Option<Seq<char>>,
    fresh: Seq<char>,
)
    ensures
        ({
            let answer = rtsp::answered(
                req,
                connection::cseq_of(req),
                rtp_port,
                session,
                fresh,
            ).0;
            let status = if known_method(req.method) {
                "RTSP/1.0 200 OK\r\nCSeq: "@
            } else {
                "RTSP/1.0 501 Not Implemented\r\nCSeq: "@
            };
            &&& first_called(req.headers, "CSeq"@, i) ==> text::occurs_at(
                answer,
                status + req.headers[i].1 + "\r\n"@,
                0,
            )
            &&& (forall|j: int|
                0 <= j < req.headers.len() ==> !text::same_name(
                    #[trigger] req.headers[j].0,
                    "CSeq"@,
                )) ==> text::occurs_at(answer, status + "0"@ + "\r\n"@, 0)
        }),
{
    law_answer_has_status_and_cseq(req, connection::cseq_of(req), rtp_port, session, fresh);
    law_header_is_missing(req.headers, "CSeq"@);
    if first_called(req.headers, "CSeq"@, i) {
        law_header_is_found(req.headers, "CSeq"@, i);
    }
}

// ---------------------------------------------------------------------------
// Capabilities
// ---------------------------------------------------------------------------

/// Whether `s` names a port in decimal.
pub open spec fn names_port(s: Seq<char>, port: int) -> bool {
    text::unsigned(s, 65_535) == Some(port as nat)
}

/// What the sink says of each capability, for every port; it knows no others.
pub proof fn law_capabilities(param: Seq<char>, rtp_port: u16)
    requires
        rtp_port < u16::MAX,
    ensures
        ({
            let said = rtsp::parameter_line(param, rtp_port);
            &&& param == "wfd_content_protection"@ ==> said == seq![param + ": none"@]
            &&& param == "wfd_video_formats"@ ==> said == seq![
                param + ": 00 00 02 02 00008400 00000000 00000000 00 0000 0000 00 none none"@,
            ]
            &&& param == "wfd_audio_codecs"@ ==> said == seq![param + ": LPCM 00000003 00"@]
            &&& param == "wfd_client_rtp_ports"@ ==> exists|p: Seq<char>, q: Seq<char>|
                {
                    &&& names_port(p, rtp_port as int)
                    &&& names_port(q, rtp_port + 1)
                    &&& said == seq![
                        #[trigger] (param + ": RTP/AVP/UDP;unicast "@ + p + " "@ + q
                            + " mode=play"@),
                    ]
                }
            &&& param == "wfd_presentation_URL"@ ==> said == seq![param + ": none none"@]
            &&& param == "wfd_display_edid"@ ==> said == seq![param + ": none"@]
            &&& param == "wfd_coupled_sink"@ ==> said == seq![param + ": none"@]
            &&& param == "wfd_uibc_capability"@ ==> said == seq![param + ": none"@]
            &&& param == "wfd_standby_resume_capability"@ ==> said == seq![param + ": none"@]
            &&& said.len() == if param == "wfd_content_protection"@ || param
                == "wfd_video_formats"@ || param == "wfd_audio_codecs"@ || param
                == "wfd_client_rtp_ports"@ || param == "wfd_presentation_URL"@ || param
                == "wfd_display_edid"@ || param == "wfd_coupled_sink"@ || param
                == "wfd_uibc_capability"@ || param == "wfd_standby_resume_capability"@ {
                1nat
            } else {
                0
            }
        }),
{
    reveal_strlit("wfd_content_protection");
    reveal_strlit("wfd_video_formats");
    reveal_strlit("wfd_audio_codecs");
    reveal_strlit("wfd_client_rtp_ports");
    reveal_strlit("wfd_presentation_URL");
    reveal_strlit("wfd_display_edid");
    reveal_strlit("wfd_coupled_sink");
    reveal_strlit("wfd_uibc_capability");
    reveal_strlit("wfd_standby_resume_capability");
    reveal_strlit("wfd_content_protection: none");
    reveal_strlit(
        "wfd_video_formats: 00 00 02 02 00008400 00000000 00000000 00 0000 0000 00 none none",
    );
    reveal_strlit("wfd_audio_codecs: LPCM 00000003 00");
    reveal_strlit("wfd_client_rtp_ports: RTP/AVP/UDP;unicast ");
    reveal_strlit("wfd_presentation_URL: none none");
    reveal_strlit("wfd_display_edid: none");
    reveal_strlit("wfd_coupled_sink: none");
    reveal_strlit("wfd_uibc_capability: none");
    reveal_strlit("wfd_standby_resume_capability: none");
    reveal_strlit(": none");
    reveal_strlit(": none none");
    reveal_strlit(": LPCM 00000003 00");
    reveal_strlit(": RTP/AVP/UDP;unicast ");
    reveal_strlit(": 00 00 02 02 00008400 00000000 00000000 00 0000 0000 00 none none");
    // The names differ in length, but for two pairs that differ elsewhere.
    assert("wfd_content_protection"@.len() == 22 && "wfd_video_formats"@.len() == 17);
    assert("wfd_audio_codecs"@.len() == 16 && "wfd_client_rtp_ports"@.len() == 20);
    assert("wfd_presentation_URL"@.len() == 20 && "wfd_display_edid"@.len() == 16);
    assert("wfd_coupled_sink"@.len() == 16 && "wfd_uibc_capability"@.len() == 19);
    assert("wfd_standby_resume_capability"@.len() == 29);
    assert("wfd_client_rtp_ports"@[4] == 'c' && "wfd_presentation_URL"@[4] == 'p');
    assert("wfd_audio_codecs"@[4] == 'a' && "wfd_display_edid"@[4] == 'd'
        && "wfd_coupled_sink"@[4] == 'c');
    let said = rtsp::parameter_line(param, rtp_port);
    if param == "wfd_content_protection"@ {
        assert(said =~= seq![param + ": none"@]) by {
            assert("wfd_content_protection: none"@ =~= param + ": none"@);
        }
    } else if param == "wfd_video_formats"@ {
        assert("wfd_video_formats: 00 00 02 02 00008400 00000000 00000000 00 0000 0000 00 none none"@
            =~= param + ": 00 00 02 02 00008400 00000000 00000000 00 0000 0000 00 none none"@);
    } else if param == "wfd_audio_codecs"@ {
        assert("wfd_audio_codecs: LPCM 00000003 00"@ =~= param + ": LPCM 00000003 00"@);
    } else if param == "wfd_client_rtp_ports"@ {
        let p = text::decimal(rtp_port as nat);
        let q = text::decimal((rtp_port + 1) as nat);
        text::law_decimal_round_trip(rtp_port as nat, 65_535);
        text::law_decimal_round_trip((rtp_port + 1) as nat, 65_535);
        assert("wfd_client_rtp_ports: RTP/AVP/UDP;unicast "@ =~= param
            + ": RTP/AVP/UDP;unicast "@);
        assert(names_port(p, rtp_port as int) && names_port(q, rtp_port + 1));
        assert(said == seq![param + ": RTP/AVP/UDP;unicast "@ + p + " "@ + q + " mode=play"@]);
    } else if param == "wfd_presentation_URL"@ {
        assert("wfd_presentation_URL: none none"@ =~= param + ": none none"@);
    } else if param == "wfd_display_edid"@ {
        assert("wfd_display_edid: none"@ =~= param + ": none"@);
    } else if param == "wfd_coupled_sink"@ {
        assert("wfd_coupled_sink: none"@ =~= param + ": none"@);
    } else if param == "wfd_uibc_capability"@ {
        assert("wfd_uibc_capability: none"@ =~= param + ": none"@);
    } else if param == "wfd_standby_resume_capability"@ {
        assert("wfd_standby_resume_capability: none"@ =~= param + ": none"@);
    }
}

/// Queries one after the other are answered one after the other, and a query
/// of one line as that line, trimmed, is.
pub proof fn law_queries_in_a_row(a: Seq<Seq<char>>, b: Seq<Seq<char>>, rtp_port: u16)
    ensures
        rtsp::parameter_lines(a + b, rtp_port) == rtsp::parameter_lines(a, rtp_port)
            + rtsp::parameter_lines(b, rtp_port),
        b.len() == 0 ==> rtsp::parameter_lines(b, rtp_port).len() == 0,
        b.len() == 1 ==> rtsp::parameter_lines(b, rtp_port) == rtsp::parameter_line(
            text::trimmed(b[0]),
            rtp_port,
        ),
    decreases b.len(),
{
    if b.len() == 0 {
        assert(a + b =~= a);
        assert(rtsp::parameter_lines(a + b, rtp_port) =~= rtsp::parameter_lines(a, rtp_port)
            + rtsp::parameter_lines(b, rtp_port));
    } else {
        let init = b.drop_last();
        law_queries_in_a_row(a, init, rtp_port);
        assert((a + b).drop_last() =~= a + init);
        assert((a + b).last() == b.last());
        assert(rtsp::parameter_lines(a + b, rtp_port) =~= rtsp::parameter_lines(a, rtp_port)
            + rtsp::parameter_lines(b, rtp_port));
        if b.len() == 1 {
            assert(init =~= Seq::<Seq<char>>::empty());
            assert(rtsp::parameter_lines(b, rtp_port) =~= rtsp::parameter_line(
                text::trimmed(b[0]),
                rtp_port,
            ));
        }
    }
}

/// A query is answered with a body of one line for each thing said, of the
/// length that is declared.
pub proof fn law_query_on_the_wire(
    req: rtsp::RequestView,
    cseq: Seq<char>,
    rtp_port: u16,
    session: Option<Seq<char>>,
    fresh: Seq<char>,
)
    requires
        req.method == "GET_PARAMETER"@,
        text::trimmed(req.body).len() > 0,
    ensures
        exists|n: Seq<char>, body: Seq<char>|
            {
                &&& body == text::joined(
                    rtsp::parameter_lines(text::lines_of(text::trimmed(req.body)), rtp_port),
                    "\r\n"@,
                ) + "\r\n"@
                &&& text::unsigned(n, text::byte_len(body)) == Some(text::byte_len(body))
                &&& rtsp::answered(req, cseq, rtp_port, session, fresh) == (
                    #[trigger] ("RTSP/1.0 200 OK\r\nCSeq: "@ + cseq
                        + "\r\nServer: nicocast/1.0\r\n"@
                        + "Content-Type: text/parameters\r\nContent-Length: "@ + n
                        + "\r\n\r\n"@ + body),
                    session,
                )
            },
{
    reveal_strlit("OPTIONS");
    reveal_strlit("GET_PARAMETER");
    reveal_strlit("RTSP/1.0 200 OK\r\nCSeq: ");
    reveal_strlit("\r\nServer: nicocast/1.0\r\n");
    reveal_strlit("Server: nicocast/1.0\r\n");
    reveal_strlit("Content-Type: text/parameters\r\nContent-Length: ");
    reveal_strlit("Content-Type: text/parameters\r\n");
    reveal_strlit("Content-Length: ");
    reveal_strlit("RTSP/1.0 ");
    reveal_strlit(" ");
    reveal_strlit("OK");
    reveal_strlit("\r\n");
    reveal_strlit("\r\n\r\n");
    reveal_strlit("CSeq: ");
    assert("OPTIONS"@.len() != "GET_PARAMETER"@.len());
    assert(text::decimal(200) =~= seq!['2', '0', '0']) by {
        reveal_with_fuel(text::decimal, 3);
    }
    let crlf = "\r\n"@;
    let body = text::joined(
        rtsp::parameter_lines(text::lines_of(text::trimmed(req.body)), rtp_port),
        crlf,
    ) + crlf;
    let size = text::byte_len(body);
    let n = text::decimal(size);
    text::law_decimal_round_trip(size, size);
    let ok = "RTSP/1.0 200 OK\r\nCSeq: "@;
    let server = crlf + "Server: nicocast/1.0\r\n"@;
    let kind = "Content-Type: text/parameters\r\n"@ + "Content-Length: "@;
    assert(ok =~= "RTSP/1.0 "@ + text::decimal(200) + " "@ + "OK"@ + crlf + "CSeq: "@);
    assert(server =~= "\r\nServer: nicocast/1.0\r\n"@);
    assert(kind =~= "Content-Type: text/parameters\r\nContent-Length: "@);
    assert(crlf + crlf =~= "\r\n\r\n"@);
    let answer = rtsp::answered(req, cseq, rtp_port, session, fresh).0;
    assert(body.len() > 0);
    let no = Seq::<Seq<char>>::empty();
    assert(rtsp::header_lines(no) =~= Seq::<char>::empty());
    assert(answer == rtsp::response(cseq, 200, "OK"@, no, body));
    assert(answer =~= ok + cseq + server + kind + n + "\r\n\r\n"@ + body);
}

/// A source that asks for the ports is told the one on which the pipeline
/// receives, and the one after it.
pub proof fn law_source_is_told_the_ports(
    cfg: &Config,
    decoder: &str,
    plan: video::PipelinePlan,
    req: rtsp::RequestView,
    cseq: Seq<char>,
    session: Option<Seq<char>>,
    fresh: Seq<char>,
    i: int,
)
    requires
        cfg.rtp_port < u16::MAX,
        call_ensures(video::pipeline_plan, (cfg, decoder), plan),
        req.method == "GET_PARAMETER"@,
        0 <= i < text::lines_of(text::trimmed(req.body)).len(),
        text::trimmed(text::lines_of(text::trimmed(req.body))[i]) == "wfd_client_rtp_ports"@,
    ensures
        exists|p: Seq<char>, q: Seq<char>|
            {
                &&& names_port(p, plan.port as int)
                &&& names_port(q, plan.port + 1)
                &&& text::occurs(
                    rtsp::answered(req, cseq, cfg.rtp_port, session, fresh).0,
                    #[trigger] ("wfd_client_rtp_ports"@ + ": RTP/AVP/UDP;unicast "@ + p + " "@ + q
                        + " mode=play"@),
                )
            },
{
    let lines = text::lines_of(text::trimmed(req.body));
    let port = cfg.rtp_port;
    let name = "wfd_client_rtp_ports"@;
    law_capabilities(name, port);
    let (p, q) = choose|p: Seq<char>, q: Seq<char>|
        {
            &&& names_port(p, port as int)
            &&& names_port(q, port + 1)
            &&& rtsp::parameter_line(name, port) == seq![
                #[trigger] (name + ": RTP/AVP/UDP;unicast "@ + p + " "@ + q + " mode=play"@),
            ]
        };
    let line = name + ": RTP/AVP/UDP;unicast "@ + p + " "@ + q + " mode=play"@;
    let said = rtsp::parameter_lines(lines, port);
    law_query_is_answered_line_by_line(lines, port);
    assert(rtsp::parameter_line(text::trimmed(lines[i]), port).len() > 0);
    assert(said.contains(line));
    let k = choose|k: int| 0 <= k < said.len() && said[k] == line;
    lemma_occurs_in_joined(said, "\r\n"@, k);
    assert(text::trimmed(req.body).len() > 0);
    law_query_on_the_wire(req, cseq, port, session, fresh);
    let (n, body) = choose|n: Seq<char>, body: Seq<char>|
        {
            &&& body == text::joined(said, "\r\n"@) + "\r\n"@
            &&& text::unsigned(n, text::byte_len(body)) == Some(text::byte_len(body))
            &&& rtsp::answered(req, cseq, port, session, fresh) == (
                #[trigger] ("RTSP/1.0 200 OK\r\nCSeq: "@ + cseq
                    + "\r\nServer: nicocast/1.0\r\n"@
                    + "Content-Type: text/parameters\r\nContent-Length: "@ + n + "\r\n\r\n"@
                    + body),
                session,
            )
        };
    let joined = text::joined(said, "\r\n"@);
    let front = "RTSP/1.0 200 OK\r\nCSeq: "@ + cseq + "\r\nServer: nicocast/1.0\r\n"@
        + "Content-Type: text/parameters\r\nContent-Length: "@ + n + "\r\n\r\n"@;
    lemma_occurs_within(front, joined, "\r\n"@, line);
    assert(front + joined + "\r\n"@ =~= front + body);
    assert(names_port(p, plan.port as int) && names_port(q, plan.port + 1));
}

// ---------------------------------------------------------------------------
// Setting up a session
// ---------------------------------------------------------------------------

/// The text of an answer to `SETUP`.
pub open spec fn setup_text(
    cseq: Seq<char>,
    sid: Seq<char>,
    transport: Seq<char>,
) -> Seq<char> {
    "RTSP/1.0 200 OK\r\nCSeq: "@ + cseq + "\r\nServer: nicocast/1.0\r\nSession: "@ + sid
        + ";timeout=60\r\nTransport: "@ + transport + "\r\nContent-Length: 0\r\n\r\n"@
}

/// The answer to `SETUP`, with the transport that is agreed to.
proof fn lemma_setup_text(
    headers: Seq<(Seq<char>, Seq<char>)>,
    cseq: Seq<char>,
    rtp_port: u16,
    sid: Seq<char>,
)
    ensures
        rtsp::setup_reply(headers, cseq, rtp_port, sid) == setup_text(
            cseq,
            sid,
            rtsp::transport_for(headers, rtp_port),
        ),
{
    reveal_strlit("\r\nServer: nicocast/1.0\r\nSession: ");
    reveal_strlit("\r\nServer: nicocast/1.0\r\n");
    reveal_strlit("Session: ");
    reveal_strlit(";timeout=60");
    reveal_strlit(";timeout=60\r\nTransport: ");
    reveal_strlit("Transport: ");
    reveal_strlit("\r\nContent-Length: 0\r\n\r\n");
    reveal_strlit("Content-Length: 0\r\n\r\n");
    reveal_strlit("\r\n");
    let crlf = "\r\n"@;
    let t = rtsp::transport_for(headers, rtp_port);
    let a = "Session: "@ + sid + ";timeout=60"@;
    let b = "Transport: "@ + t;
    let both = seq![a, b];
    lemma_bare_response(cseq, both);
    assert(both.drop_last() =~= seq![a]);
    lemma_one_header(a);
    let lines = rtsp::header_lines(both);
    assert(lines =~= a + crlf + b + crlf);
    assert("\r\nServer: nicocast/1.0\r\nSession: "@ =~= "\r\nServer: nicocast/1.0\r\n"@
        + "Session: "@);
    assert(";timeout=60\r\nTransport: "@ =~= ";timeout=60"@ + crlf + "Transport: "@);
    assert("\r\nContent-Length: 0\r\n\r\n"@ =~= crlf + "Content-Length: 0\r\n\r\n"@);
    assert(rtsp::setup_reply(headers, cseq, rtp_port, sid) =~= setup_text(cseq, sid, t));
}

/// `SETUP` keeps an open session or opens the new one, and agrees to the
/// transport of the request: unchanged where it names the client's port, with
/// the sink's ports added where it does not, and with the sink's ports for both
/// sides where the request names no transport.
pub proof fn law_setup_on_the_wire(
    req: rtsp::RequestView,
    cseq: Seq<char>,
    rtp_port: u16,
    session: Option<Seq<char>>,
    fresh: Seq<char>,
    i: int,
)
    requires
        req.method == "SETUP"@,
        rtp_port < u16::MAX,
    ensures
        ({
            let (answer, after) = rtsp::answered(req, cseq, rtp_port, session, fresh);
            let sid = if session is Some {
                session->0
            } else {
                fresh
            };
            &&& after == Some(sid)
            &&& first_called(req.headers, "Transport"@, i) && text::occurs(
                req.headers[i].1,
                "client_port="@,
            ) ==> answer == setup_text(cseq, sid, req.headers[i].1)
            &&& first_called(req.headers, "Transport"@, i) && !text::occurs(
                req.headers[i].1,
                "client_port="@,
            ) ==> exists|p: Seq<char>, q: Seq<char>|
                {
                    &&& names_port(p, rtp_port as int)
                    &&& names_port(q, rtp_port + 1)
                    &&& answer == setup_text(
                        cseq,
                        sid,
                        #[trigger] (req.headers[i].1 + ";server_port="@ + p + "-"@ + q),
                    )
                }
            &&& (forall|j: int|
                0 <= j < req.headers.len() ==> !text::same_name(
                    #[trigger] req.headers[j].0,
                    "Transport"@,
                )) ==> exists|p: Seq<char>, q: Seq<char>|
                {
                    &&& names_port(p, rtp_port as int)
                    &&& names_port(q, rtp_port + 1)
                    &&& answer == setup_text(
                        cseq,
                        sid,
                        #[trigger] ("RTP/AVP/UDP;unicast;client_port="@ + p + "-"@ + q
                            + ";server_port="@ + p + "-"@ + q),
                    )
                }
        }),
{
    reveal_strlit("OPTIONS");
    reveal_strlit("GET_PARAMETER");
    reveal_strlit("SET_PARAMETER");
    reveal_strlit("SETUP");
    assert("OPTIONS"@.len() == 7 && "GET_PARAMETER"@.len() == 13 && "SETUP"@.len() == 5
        && "SET_PARAMETER"@.len() == 13);
    let sid = if session is Some {
        session->0
    } else {
        fresh
    };
    let answer = rtsp::answered(req, cseq, rtp_port, session, fresh).0;
    lemma_setup_text(req.headers, cseq, rtp_port, sid);
    let p = text::decimal(rtp_port as nat);
    let q = text::decimal((rtp_port + 1) as nat);
    text::law_decimal_round_trip(rtp_port as nat, 65_535);
    text::law_decimal_round_trip((rtp_port + 1) as nat, 65_535);
    assert(names_port(p, rtp_port as int) && names_port(q, rtp_port + 1));
    law_header_is_missing(req.headers, "Transport"@);
    let t = rtsp::transport_for(req.headers, rtp_port);
    if first_called(req.headers, "Transport"@, i) {
        law_header_is_found(req.headers, "Transport"@, i);
        let v = req.headers[i].1;
        if !text::occurs(v, "client_port="@) {
            let full = v + ";server_port="@ + p + "-"@ + q;
            assert(t =~= full);
            assert(answer == setup_text(cseq, sid, full));
        }
    }
    if forall|j: int|
        0 <= j < req.headers.len() ==> !text::same_name(
            #[trigger] req.headers[j].0,
            "Transport"@,
        ) {
        let full = "RTP/AVP/UDP;unicast;client_port="@ + p + "-"@ + q + ";server_port="@ + p + "-"@
            + q;
        assert(t =~= full);
        assert(answer == setup_text(cseq, sid, full));
    }
}

/// The sink's ports are named exactly where the source asks for them, and where
/// it sets up a session without naming its own port.
pub proof fn law_needs_rtcp_port(req: &rtsp::RtspRequest, r: bool)
    requires
        call_ensures(rtsp::RtspRequest::needs_rtcp_port, (req,), r),
    ensures
        ({
            let asked = text::lines_of(text::trimmed(req.body@));
            let asks = exists|i: int|
                0 <= i < asked.len() && #[trigger] text::trimmed(asked[i])
                    == "wfd_client_rtp_ports"@;
            let names_own = exists|i: int|
                first_called(req@.headers, "Transport"@, i) && text::occurs(
                    (#[trigger] req@.headers[i]).1,
                    "client_port="@,
                );
            r <==> (req.method@ == "GET_PARAMETER"@ && asks) || (req.method@ == "SETUP"@
                && !names_own)
        }),
{
    let headers = req@.headers;
    let name = "Transport"@;
    let asked = text::lines_of(text::trimmed(req.body@));
    assert(asked == rtsp::queried(req@.body));
    law_header_is_missing(headers, name);
    if rtsp::header_value(headers, name) is Some {
        let i = lemma_first_called(headers, name);
        law_header_is_found(headers, name, i);
        if text::occurs(headers[i].1, "client_port="@) {
            assert(first_called(headers, name, i) && text::occurs(headers[i].1, "client_port="@));
        }
    }
    if exists|i: int|
        first_called(headers, name, i) && text::occurs(
            (#[trigger] headers[i]).1,
            "client_port="@,
        ) {
        let i = choose|i: int|
            first_called(headers, name, i) && text::occurs(
                (#[trigger] headers[i]).1,
                "client_port="@,
            );
        law_header_is_found(headers, name, i);
    }
}

/// The first header of a name, where there is one.
proof fn lemma_first_called(headers: Seq<(Seq<char>, Seq<char>)>, name: Seq<char>) -> (i: int)
    requires
        rtsp::header_value(headers, name) is Some,
    ensures
        first_called(headers, name, i),
    decreases headers.len(),
{
    text::law_lowered(headers[0].0, name);
    if text::same_name(headers[0].0, name) {
        0
    } else {
        let rest = headers.drop_first();
        let i = lemma_first_called(rest, name);
        assert(rest[i] == headers[i + 1]);
        assert forall|j: int| 0 <= j < i + 1 implies !text::same_name(
            #[trigger] headers[j].0,
            name,
        ) by {
            if j > 0 {
                assert(rest[j - 1] == headers[j]);
            }
        }
        i + 1
    }
}

/// An answer that names no RTCP port is the same whatever the RTP port is.
pub proof fn law_other_answers_ignore_the_port(
    req: rtsp::RequestView,
    cseq: Seq<char>,
    p: u16,
    q: u16,
    session: Option<Seq<char>>,
    fresh: Seq<char>,
)
    requires
        !rtsp::names_rtcp_port(req),
    ensures
        rtsp::answered(req, cseq, p, session, fresh) == rtsp::answered(
            req,
            cseq,
            q,
            session,
            fresh,
        ),
{
    if req.method == "GET_PARAMETER"@ {
        let lines = rtsp::queried(req.body);
        assert forall|i: int| 0 <= i < lines.len() implies #[trigger] text::trimmed(lines[i])
            != "wfd_client_rtp_ports"@ by {}
        lemma_port_is_not_said(lines, p, q);
    }
}

/// What is said of other parameters does not depend on the port.
proof fn lemma_port_is_not_said(lines: Seq<Seq<char>>, p: u16, q: u16)
    requires
        forall|i: int|
            0 <= i < lines.len() ==> #[trigger] text::trimmed(lines[i])
                != "wfd_client_rtp_ports"@,
    ensures
        rtsp::parameter_lines(lines, p) == rtsp::parameter_lines(lines, q),
    decreases lines.len(),
{
    if lines.len() > 0 {
        let init = lines.drop_last();
        assert forall|i: int| 0 <= i < init.len() implies #[trigger] text::trimmed(init[i])
            != "wfd_client_rtp_ports"@ by {
            assert(text::trimmed(lines[i]) != "wfd_client_rtp_ports"@);
        }
        assert(text::trimmed(lines[lines.len() - 1]) != "wfd_client_rtp_ports"@);
        lemma_port_is_not_said(init, p, q);
    }
}

/// A session ID holds the whole clock reading: the nanoseconds are taken out
/// again with an exclusive or, and what is left is the seconds, moved up by
/// twenty bits.
pub proof fn law_session_id_holds_the_reading(reading: Option<(u64, u32)>, id: u64)
    requires
        call_ensures(rtsp::session_id_from, (reading,), id),
    ensures
        reading matches Some((secs, nanos)) ==> {
            &&& id ^ (nanos as u64) == secs << 20
            &&& secs < 0x1000_0000_0000 ==> (id ^ (nanos as u64)) >> 20 == secs
        },
        reading is None ==> id == 0xDEAD_BEEF_1234_5678,
{
    if let Some((secs, nanos)) = reading {
        let n = nanos as u64;
        let moved = secs << 20;
        assert((n ^ moved) ^ n == moved) by (bit_vector);
        assert(secs < 0x1000_0000_0000 ==> (secs << 20) >> 20 == secs) by (bit_vector);
    }
}

/// Different clock readings give different session IDs, as long as they are
/// less than 2^44 seconds from the epoch and agree on the seconds or on the
/// nanoseconds.
pub proof fn law_readings_give_different_ids(secs: u64, nanos: u32, t: u64, n: u32)
    requires
        secs < 0x1000_0000_0000,
        t < 0x1000_0000_0000,
        secs == t || nanos == n,
        rtsp::session_id_for(Some((secs, nanos))) == rtsp::session_id_for(Some((t, n))),
    ensures
        secs == t && nanos == n,
{
    let a = nanos as u64;
    let b = n as u64;
    assert(a ^ (secs << 20) == b ^ (t << 20) && secs == t ==> a == b) by (bit_vector);
    assert(a ^ (secs << 20) == b ^ (t << 20) && a == b && secs < 0x1000_0000_0000 && t
        < 0x1000_0000_0000 ==> secs == t) by (bit_vector);
}

/// A trigger is what follows the keyword on its line, trimmed, and a line that
/// does not begin with the keyword is none; lines one after the other give
/// their triggers one after the other.
pub proof fn law_triggers(line: Seq<char>, a: Seq<Seq<char>>, b: Seq<Seq<char>>)
    ensures
        ({
            let t = text::trimmed(line);
            let key = "wfd_trigger_method:"@;
            &&& text::occurs_at(t, key, 0) && !text::occurs_at(t.skip(key.len() as int), key, 0)
                ==> rtsp::trigger_in(line) == seq![text::trimmed(t.skip(key.len() as int))]
            &&& !text::occurs_at(t, key, 0) ==> rtsp::trigger_in(line).len() == 0
        }),
        rtsp::triggers_in(a + b) == rtsp::triggers_in(a) + rtsp::triggers_in(b),
        rtsp::triggers_in(seq![line]) == rtsp::trigger_in(line),
    decreases b.len(),
{
    let key = "wfd_trigger_method:"@;
    reveal_strlit("wfd_trigger_method:");
    let t = text::trimmed(line);
    if text::occurs_at(t, key, 0) {
        reveal_with_fuel(rtsp::without_prefix, 2);
    }
    assert(seq![line].drop_last() =~= Seq::<Seq<char>>::empty());
    reveal_with_fuel(rtsp::triggers_in, 2);
    assert(rtsp::triggers_in(seq![line]) =~= rtsp::trigger_in(line));
    if b.len() == 0 {
        assert(a + b =~= a);
        assert(rtsp::triggers_in(a + b) =~= rtsp::triggers_in(a) + rtsp::triggers_in(b));
    } else {
        let init = b.drop_last();
        law_triggers(line, a, init);
        assert((a + b).drop_last() =~= a + init);
        assert((a + b).last() == b.last());
        assert(rtsp::triggers_in(a + b) =~= rtsp::triggers_in(a) + rtsp::triggers_in(b));
    }
}

/// A keyword that is repeated is taken away as often as it stands there.
pub proof fn law_without_prefix(s: Seq<char>, prefix: Seq<char>)
    requires
        prefix.len() > 0,
    ensures
        rtsp::without_prefix(prefix + s, prefix) == rtsp::without_prefix(s, prefix),
        !text::occurs_at(s, prefix, 0) ==> rtsp::without_prefix(s, prefix) == s,
        !text::occurs_at(rtsp::without_prefix(s, prefix), prefix, 0),
    decreases s.len(),
{
    let all = prefix + s;
    assert(all.subrange(0, prefix.len() as int) =~= prefix);
    assert(all.skip(prefix.len() as int) =~= s);
    if text::occurs_at(s, prefix, 0) {
        law_without_prefix(s.skip(prefix.len() as int), prefix);
    }
}

// ---------------------------------------------------------------------------
// Requests and their answers
// ---------------------------------------------------------------------------

/// Whether a `CSeq` is that of a request: the value of its first `CSeq` header,
/// and `0` where it has none.
pub open spec fn is_cseq(headers: Seq<(Seq<char>, Seq<char>)>, cseq: Seq<char>) -> bool {
    ||| exists|i: int| first_called(headers, "CSeq"@, i) && (#[trigger] headers[i]).1 == cseq
    ||| cseq == "0"@ && forall|j: int|
        0 <= j < headers.len() ==> !text::same_name(#[trigger] headers[j].0, "CSeq"@)
}

/// Whether a text is an answer to a request, by what stands on the wire, and
/// `after` the session that it leaves.
pub open spec fn is_answer(
    req: rtsp::RequestView,
    cseq: Seq<char>,
    before: Option<Seq<char>>,
    answer: Seq<char>,
    after: Option<Seq<char>>,
) -> bool {
    let ok = "RTSP/1.0 200 OK\r\nCSeq: "@ + cseq + "\r\nServer: nicocast/1.0\r\n"@;
    let end = "Content-Length: 0\r\n\r\n"@;
    let silent = forall|i: int|
        0 <= i < req.body.len() ==> text::is_space(#[trigger] req.body[i]);
    let acknowledged = match before {
        Some(sid) => ok + ("Session: "@ + sid + "\r\n"@) + end,
        None => ok + Seq::<char>::empty() + end,
    };
    &&& req.method == "OPTIONS"@ ==> answer == ok
        + "Public: org.wfa.wfd1.0, GET_PARAMETER, SET_PARAMETER, SETUP, PLAY, TEARDOWN"@ + "\r\n"@
        + end && after == before
    &&& req.method == "SET_PARAMETER"@ || req.method == "PLAY"@ || (req.method
        == "GET_PARAMETER"@ && silent) ==> answer == acknowledged && after == before
    &&& req.method == "GET_PARAMETER"@ && !silent ==> after == before && text::occurs_at(
        answer,
        ok + "Content-Type: text/parameters\r\nContent-Length: "@,
        0,
    )
    &&& req.method == "SETUP"@ ==> after is Some && (before is Some ==> after == before)
        && exists|transport: Seq<char>| answer == #[trigger] setup_text(cseq, after->0, transport)
    &&& req.method == "TEARDOWN"@ ==> answer == ok + end && after is None
    &&& !known_method(req.method) ==> answer == "RTSP/1.0 501 Not Implemented\r\nCSeq: "@ + cseq
        + "\r\nServer: nicocast/1.0\r\n"@ + end && after == before
}

/// What a request is answered is an answer to it.
proof fn lemma_is_answer(
    req: rtsp::RequestView,
    cseq: Seq<char>,
    rtp_port: u16,
    session: Option<Seq<char>>,
    fresh: Seq<char>,
)
    ensures
        ({
            let (answer, after) = rtsp::answered(req, cseq, rtp_port, session, fresh);
            is_answer(req, cseq, session, answer, after)
        }),
{
    let (answer, after) = rtsp::answered(req, cseq, rtp_port, session, fresh);
    let ok = "RTSP/1.0 200 OK\r\nCSeq: "@ + cseq + "\r\nServer: nicocast/1.0\r\n"@;
    reveal_strlit("OPTIONS");
    reveal_strlit("GET_PARAMETER");
    reveal_strlit("SET_PARAMETER");
    reveal_strlit("SETUP");
    reveal_strlit("PLAY");
    reveal_strlit("TEARDOWN");
    assert("GET_PARAMETER"@[0] == 'G' && "SET_PARAMETER"@[0] == 'S');
    assert("OPTIONS"@.len() == 7 && "GET_PARAMETER"@.len() == 13 && "PLAY"@.len() == 4
        && "SETUP"@.len() == 5 && "SET_PARAMETER"@.len() == 13 && "TEARDOWN"@.len() == 8);
    let silent = forall|i: int|
        0 <= i < req.body.len() ==> text::is_space(#[trigger] req.body[i]);
    law_other_answers_on_the_wire(req, cseq, rtp_port, session, fresh);
    if req.method == "OPTIONS"@ {
        law_options_on_the_wire(req, cseq, rtp_port, session, fresh);
    } else if req.method == "SET_PARAMETER"@ || req.method == "PLAY"@ || (req.method
        == "GET_PARAMETER"@ && silent) {
        law_acknowledgement_on_the_wire(req, cseq, rtp_port, session, fresh);
    } else if req.method == "GET_PARAMETER"@ {
        let i = choose|i: int| 0 <= i < req.body.len() && !text::is_space(#[trigger] req.body[i]);
        lemma_not_all_is_trimmed(req.body, i);
        law_query_on_the_wire(req, cseq, rtp_port, session, fresh);
        let (n, body) = choose|n: Seq<char>, body: Seq<char>|
            answer == #[trigger] ("RTSP/1.0 200 OK\r\nCSeq: "@ + cseq
                + "\r\nServer: nicocast/1.0\r\n"@
                + "Content-Type: text/parameters\r\nContent-Length: "@ + n + "\r\n\r\n"@ + body);
        let front = ok + "Content-Type: text/parameters\r\nContent-Length: "@;
        assert(answer.subrange(0, front.len() as int) =~= front);
    } else if req.method == "SETUP"@ {
        lemma_setup_text(req.headers, cseq, rtp_port, after->0);
    }
}

/// A text with a character that is no white space is not trimmed away.
proof fn lemma_not_all_is_trimmed(s: Seq<char>, i: int)
    requires
        0 <= i < s.len(),
        !text::is_space(s[i]),
    ensures
        text::trimmed(s).len() > 0,
{
    text::law_trimmed(s);
}

/// The `CSeq` that is echoed is that of the request.
proof fn lemma_is_cseq(req: rtsp::RequestView)
    ensures
        is_cseq(req.headers, connection::cseq_of(req)),
{
    law_header_is_missing(req.headers, "CSeq"@);
    if rtsp::header_value(req.headers, "CSeq"@) is Some {
        let i = lemma_first_called(req.headers, "CSeq"@);
        law_header_is_found(req.headers, "CSeq"@, i);
        assert(req.headers[i].1 == connection::cseq_of(req));
    }
}

/// What `Connection::answer` sends: an answer to the request with the request's
/// own `CSeq`.  M2 follows exactly where it is wanted and the request is
/// `OPTIONS`, and its reply is then awaited; the state of the subsystem moves
/// with `SETUP`, `PLAY` and `TEARDOWN` only.
pub proof fn law_answer(
    c: &mut connection::Connection,
    req: &rtsp::RtspRequest,
    rtp_port: u16,
    send_m2: bool,
    r: connection::Reply,
)
    requires
        call_ensures(connection::Connection::answer, (c, req, rtp_port, send_m2), r),
    ensures
        exists|cseq: Seq<char>|
            is_cseq(req@.headers, cseq) && #[trigger] is_answer(
                req@,
                cseq,
                old(c)@.session,
                r.response@,
                final(c)@.session,
            ),
        final(c)@.pending == old(c)@.pending,
        r.m2 is Some <==> send_m2 && req.method@ == "OPTIONS"@,
        r.m2 matches Some(m) ==> m@
            == "GET_PARAMETER rtsp://localhost/wfd1.0 RTSP/1.0\r\nCSeq: 2\r\n\r\n"@,
        final(c)@.awaiting_reply == (old(c)@.awaiting_reply || r.m2 is Some),
        r.rtsp_state == Some(2u8) <==> req.method@ == "SETUP"@,
        r.rtsp_state == Some(3u8) <==> req.method@ == "PLAY"@,
        r.rtsp_state == Some(0u8) <==> req.method@ == "TEARDOWN"@,
        r.rtsp_state is None <==> req.method@ != "SETUP"@ && req.method@ != "PLAY"@
            && req.method@ != "TEARDOWN"@,
{
    let q = req@;
    let cseq = connection::cseq_of(q);
    let id = choose|id: u64|
        (r.response@, final(c)@.session) == rtsp::answered(
            q,
            cseq,
            rtp_port,
            old(c)@.session,
            #[trigger] rtsp::session_text(id),
        );
    lemma_is_answer(q, cseq, rtp_port, old(c)@.session, rtsp::session_text(id));
    lemma_is_cseq(q);
    connection::law_state_after(q.method);
}

/// What `dispatch` gives is an answer to the request with the `CSeq` given.
pub proof fn law_dispatch(
    req: &rtsp::RtspRequest,
    cseq: &str,
    rtp_port: u16,
    session: &mut Option<String>,
    out: String,
)
    requires
        call_ensures(rtsp::dispatch, (req, cseq, rtp_port, session), out),
    ensures
        is_answer(
            req@,
            cseq@,
            text::opt_text(*old(session)),
            out@,
            text::opt_text(*final(session)),
        ),
{
    let id = choose|id: u64|
        (out@, text::opt_text(*final(session))) == rtsp::answered(
            req@,
            cseq@,
            rtp_port,
            text::opt_text(*old(session)),
            #[trigger] rtsp::session_text(id),
        );
    lemma_is_answer(req@, cseq@, rtp_port, text::opt_text(*old(session)), rtsp::session_text(id));
}

/// Each handler gives the answer to the method that it is for.
pub proof fn law_handlers(
    req: &rtsp::RtspRequest,
    cseq: &str,
    session: &mut Option<String>,
    out: String,
)
    ensures
        ({
            let before = text::opt_text(*old(session));
            let after = text::opt_text(*final(session));
            let any = |method: Seq<char>|
                rtsp::RequestView {
                    method,
                    uri: seq![],
                    headers: req@.headers,
                    body: req@.body,
                };
            &&& call_ensures(rtsp::handle_options, (cseq,), out) ==> is_answer(
                any("OPTIONS"@),
                cseq@,
                before,
                out@,
                before,
            )
            &&& call_ensures(rtsp::handle_set_parameter, (req, cseq, session), out) ==> is_answer(
                any("SET_PARAMETER"@),
                cseq@,
                before,
                out@,
                after,
            )
            &&& call_ensures(rtsp::handle_play, (cseq, session), out) ==> is_answer(
                any("PLAY"@),
                cseq@,
                before,
                out@,
                after,
            )
            &&& call_ensures(rtsp::handle_teardown, (cseq, session), out) ==> is_answer(
                any("TEARDOWN"@),
                cseq@,
                before,
                out@,
                after,
            )
        }),
{
    let before = text::opt_text(*old(session));
    let mk = |method: Seq<char>|
        rtsp::RequestView { method, uri: seq![], headers: req@.headers, body: req@.body };
    reveal_strlit("OPTIONS");
    reveal_strlit("GET_PARAMETER");
    reveal_strlit("SET_PARAMETER");
    reveal_strlit("SETUP");
    reveal_strlit("PLAY");
    reveal_strlit("TEARDOWN");
    assert("GET_PARAMETER"@[0] == 'G' && "SET_PARAMETER"@[0] == 'S');
    assert("OPTIONS"@.len() == 7 && "GET_PARAMETER"@.len() == 13 && "PLAY"@.len() == 4
        && "SETUP"@.len() == 5 && "SET_PARAMETER"@.len() == 13 && "TEARDOWN"@.len() == 8);
    lemma_is_answer(mk("OPTIONS"@), cseq@, 0, before, seq![]);
    lemma_is_answer(mk("SET_PARAMETER"@), cseq@, 0, before, seq![]);
    lemma_is_answer(mk("PLAY"@), cseq@, 0, before, seq![]);
    lemma_is_answer(mk("TEARDOWN"@), cseq@, 0, before, seq![]);
}

/// What `RtspRequest::parse` reads: a request that is spelled out, whatever its
/// parts are, is read back; and a text whose first line has no space is none.
pub proof fn law_parse(
    raw: &str,
    r: Option<rtsp::RtspRequest>,
    method: Seq<char>,
    uri: Seq<char>,
    version: Seq<char>,
    headers: Seq<(Seq<char>, Seq<char>)>,
    body: Seq<char>,
)
    requires
        call_ensures(rtsp::RtspRequest::parse, (raw,), r),
        one_line(method),
        one_line(uri),
        one_line(version),
        !method.contains(' '),
        !uri.contains(' '),
        forall|i: int| 0 <= i < headers.len() ==> spellable(#[trigger] headers[i]),
    ensures
        raw@ == request_text(method, uri, version, headers, body) ==> r is Some && r->0.method@
            == method && r->0.uri@ == uri && r->0@.headers == headers && r->0.body@ == text::joined(
            text::lines_of(body),
            "\r\n"@,
        ),
        r is None <==> text::lines_of(raw@).len() == 0 || !text::lines_of(raw@)[0].contains(' '),
        r matches Some(q) ==> !q.method@.contains(' ') && !q.uri@.contains(' '),
{
    law_request_line(raw@);
    law_request_is_read_back(method, uri, version, headers, body);
}

/// What `RtspRequest::content_length` gives: what the last `Content-Length`
/// declares, wherever it stands.
pub proof fn law_content_length(req: &rtsp::RtspRequest, n: usize, size: nat)
    requires
        call_ensures(rtsp::RtspRequest::content_length, (req,), n),
        connection::declares(req@.headers, size),
    ensures
        n == size,
{
    let name = "Content-Length"@;
    let headers = req@.headers;
    law_declared_length(headers, 0);
    if !(forall|j: int|
        0 <= j < headers.len() ==> !text::same_name(#[trigger] headers[j].0, name)) {
        let i = choose|i: int|
            {
                &&& 0 <= i < headers.len()
                &&& text::same_name((#[trigger] headers[i]).0, name)
                &&& forall|j: int|
                    i < j < headers.len() ==> !text::same_name(#[trigger] headers[j].0, name)
                &&& match text::unsigned(headers[i].1, usize::MAX as nat) {
                    Some(n) => size == n,
                    None => size == 0,
                }
            };
        law_declared_length(headers, i);
    }
}

/// The beginning of a response: the status line, the `CSeq` and the server.
pub open spec fn response_front(
    status: Seq<char>,
    reason: Seq<char>,
    cseq: Seq<char>,
) -> Seq<char> {
    "RTSP/1.0 "@ + status + " "@ + reason + "\r\nCSeq: "@ + cseq
        + "\r\nServer: nicocast/1.0\r\n"@
}

/// What `rtsp_response` builds: the status, the `CSeq`, the server, each further
/// header that is not empty on a line of its own, and a body of the length that
/// is declared.
pub proof fn law_rtsp_response(
    cseq: &str,
    status: u16,
    reason: &str,
    headers: &[&str],
    body: &str,
    bare: String,
    full: String,
)
    requires
        call_ensures(rtsp::rtsp_response, (cseq, status, reason, None::<&[&str]>, None::<&str>), bare),
        call_ensures(rtsp::rtsp_response, (cseq, status, reason, Some(headers), Some(body)), full),
        headers@.len() == 1,
        headers@[0]@.len() > 0,
        body@.len() > 0,
    ensures
        exists|s: Seq<char>, n: Seq<char>|
            {
                &&& text::unsigned(s, 65_535) == Some(status as nat)
                &&& text::unsigned(n, vstd::utf8::encode_utf8(body@).len()) == Some(
                    vstd::utf8::encode_utf8(body@).len(),
                )
                &&& bare@ == response_front(s, reason@, cseq@) + "Content-Length: 0\r\n\r\n"@
                &&& full@ == #[trigger] (response_front(s, reason@, cseq@) + headers@[0]@
                    + "\r\nContent-Type: text/parameters\r\nContent-Length: "@ + n + "\r\n\r\n"@
                    + body@)
            },
{
    reveal_strlit("\r\nServer: nicocast/1.0\r\n");
    reveal_strlit("Server: nicocast/1.0\r\n");
    reveal_strlit("\r\nContent-Type: text/parameters\r\nContent-Length: ");
    reveal_strlit("Content-Type: text/parameters\r\n");
    reveal_strlit("Content-Length: ");
    reveal_strlit("Content-Length: 0\r\n");
    reveal_strlit("Content-Length: 0\r\n\r\n");
    reveal_strlit("\r\nCSeq: ");
    reveal_strlit("CSeq: ");
    reveal_strlit("\r\n");
    reveal_strlit("\r\n\r\n");
    let crlf = "\r\n"@;
    let s = text::decimal(status as nat);
    let size = vstd::utf8::encode_utf8(body@).len();
    let n = text::decimal(size);
    text::law_decimal_round_trip(status as nat, 65_535);
    text::law_decimal_round_trip(size, size);
    assert(crlf + "CSeq: "@ =~= "\r\nCSeq: "@);
    assert(crlf + "Server: nicocast/1.0\r\n"@ =~= "\r\nServer: nicocast/1.0\r\n"@);
    assert("Content-Length: 0\r\n"@ + crlf =~= "Content-Length: 0\r\n\r\n"@);
    assert(crlf + "Content-Type: text/parameters\r\n"@ + "Content-Length: "@
        =~= "\r\nContent-Type: text/parameters\r\nContent-Length: "@);
    assert(crlf + crlf =~= "\r\n\r\n"@);
    let front = response_front(s, reason@, cseq@);
    let h = headers@[0]@;
    assert(text::str_texts(headers@) =~= seq![h]);
    lemma_one_header(h);
    let no = Seq::<Seq<char>>::empty();
    assert(rtsp::header_lines(no) =~= Seq::<char>::empty());
    assert(bare@ =~= front + "Content-Length: 0\r\n\r\n"@);
    assert(full@ =~= front + h + "\r\nContent-Type: text/parameters\r\nContent-Length: "@ + n
        + "\r\n\r\n"@ + body@);
}

/// Empty headers are left out of a response, and the others stand in it in
/// their order.
pub proof fn law_response_headers(a: Seq<Seq<char>>, h: Seq<char>, b: Seq<Seq<char>>)
    ensures
        rtsp::header_lines(a + b) == rtsp::header_lines(a) + rtsp::header_lines(b),
        h.len() > 0 ==> rtsp::header_lines(seq![h]) == h + "\r\n"@,
        h.len() == 0 ==> rtsp::header_lines(seq![h]).len() == 0,
    decreases b.len(),
{
    if h.len() > 0 {
        lemma_one_header(h);
    } else {
        assert(seq![h].drop_last() =~= Seq::<Seq<char>>::empty());
        reveal_with_fuel(rtsp::header_lines, 2);
    }
    if b.len() == 0 {
        assert(a + b =~= a);
        assert(rtsp::header_lines(a + b) =~= rtsp::header_lines(a) + rtsp::header_lines(b));
    } else {
        let init = b.drop_last();
        law_response_headers(a, h, init);
        assert((a + b).drop_last() =~= a + init);
        assert((a + b).last() == b.last());
        assert(rtsp::header_lines(a + b) =~= rtsp::header_lines(a) + rtsp::header_lines(b));
    }
}

/// What `trigger_methods` finds: one trigger for each line that begins with the
/// keyword, in the order of the lines.
pub proof fn law_trigger_methods(req: &rtsp::RtspRequest, out: Vec<String>, line: Seq<char>)
    requires
        call_ensures(rtsp::trigger_methods, (req,), out),
        text::lines_of(req.body@) == seq![line],
    ensures
        ({
            let t = text::trimmed(line);
            let key = "wfd_trigger_method:"@;
            &&& text::occurs_at(t, key, 0) <==> out@.len() == 1
            &&& !text::occurs_at(t, key, 0) <==> out@.len() == 0
            &&& text::occurs_at(t, key, 0) && !text::occurs_at(t.skip(key.len() as int), key, 0)
                ==> out@[0]@ == text::trimmed(t.skip(key.len() as int))
        }),
{
    law_triggers(line, seq![], seq![]);
    let t = text::texts(out@);
    assert(t.len() == out@.len());
    if out@.len() == 1 {
        assert(t[0] == out@[0]@);
    }
}

/// What the two forms of `SETUP` give: an open session stays, a new one gets
/// the ID that is drawn, as sixteen digits that read back as it; and the answer
/// names the session and the transport.
pub proof fn law_setup(
    req: &rtsp::RtspRequest,
    cseq: &str,
    rtp_port: u16,
    session: &mut Option<String>,
    fresh: u64,
    out: String,
    i: int,
)
    requires
        call_ensures(rtsp::setup_with_id, (req, cseq, rtp_port, session, fresh), out),
        rtp_port < u16::MAX,
    ensures
        *final(session) is Some,
        *old(session) is Some ==> (*final(session))->0@ == (*old(session))->0@,
        *old(session) is None ==> (*final(session))->0@ == rtsp::session_text(fresh),
        first_called(req@.headers, "Transport"@, i) && text::occurs(
            req@.headers[i].1,
            "client_port="@,
        ) ==> out@ == setup_text(cseq@, (*final(session))->0@, req@.headers[i].1),
        first_called(req@.headers, "Transport"@, i) && !text::occurs(
            req@.headers[i].1,
            "client_port="@,
        ) ==> exists|p: Seq<char>, q: Seq<char>|
            {
                &&& names_port(p, rtp_port as int)
                &&& names_port(q, rtp_port + 1)
                &&& out@ == setup_text(
                    cseq@,
                    (*final(session))->0@,
                    #[trigger] (req@.headers[i].1 + ";server_port="@ + p + "-"@ + q),
                )
            },
        (forall|j: int|
            0 <= j < req@.headers.len() ==> !text::same_name(
                #[trigger] req@.headers[j].0,
                "Transport"@,
            )) ==> exists|p: Seq<char>, q: Seq<char>|
            {
                &&& names_port(p, rtp_port as int)
                &&& names_port(q, rtp_port + 1)
                &&& out@ == setup_text(
                    cseq@,
                    (*final(session))->0@,
                    #[trigger] ("RTP/AVP/UDP;unicast;client_port="@ + p + "-"@ + q
                        + ";server_port="@ + p + "-"@ + q),
                )
            },
{
    let before = text::opt_text(*old(session));
    let asked = rtsp::RequestView {
        method: "SETUP"@,
        uri: seq![],
        headers: req@.headers,
        body: seq![],
    };
    reveal_strlit("OPTIONS");
    reveal_strlit("GET_PARAMETER");
    reveal_strlit("SET_PARAMETER");
    reveal_strlit("SETUP");
    assert("OPTIONS"@.len() == 7 && "GET_PARAMETER"@.len() == 13 && "SETUP"@.len() == 5
        && "SET_PARAMETER"@.len() == 13);
    law_setup_on_the_wire(asked, cseq@, rtp_port, before, rtsp::session_text(fresh), i);
}

/// `SETUP` without an open session opens one whose ID is drawn from the clock.
pub proof fn law_setup_draws_the_id(
    req: &rtsp::RtspRequest,
    cseq: &str,
    rtp_port: u16,
    session: &mut Option<String>,
    out: String,
)
    requires
        call_ensures(rtsp::handle_setup, (req, cseq, rtp_port, session), out),
    ensures
        *final(session) is Some,
        *old(session) is Some ==> (*final(session))->0@ == (*old(session))->0@,
        *old(session) is None ==> exists|id: u64|
            rtsp::is_drawn(id) && (*final(session))->0@ == #[trigger] rtsp::session_text(id),
        exists|transport: Seq<char>|
            out@ == #[trigger] setup_text(cseq@, (*final(session))->0@, transport),
{
    let id = choose|id: u64|
        {
            let sid = match text::opt_text(*old(session)) {
                Some(s) => s,
                None => #[trigger] rtsp::session_text(id),
            };
            &&& out@ == rtsp::setup_reply(req@.headers, cseq@, rtp_port, sid)
            &&& text::opt_text(*final(session)) == Some(sid)
            &&& *old(session) is None ==> rtsp::is_drawn(id)
        };
    lemma_setup_text(req@.headers, cseq@, rtp_port, (*final(session))->0@);
}

/// What `handle_get_parameter` says: one line for each capability that is asked
/// for, in the order of the lines; the session stays.
pub proof fn law_get_parameter(
    req: &rtsp::RtspRequest,
    cseq: &str,
    rtp_port: u16,
    session: &mut Option<String>,
    out: String,
    i: int,
)
    requires
        call_ensures(rtsp::handle_get_parameter, (req, cseq, rtp_port, session), out),
        rtp_port < u16::MAX,
        0 <= i < text::lines_of(text::trimmed(req.body@)).len(),
    ensures
        *final(session) == *old(session),
        ({
            let param = text::trimmed(text::lines_of(text::trimmed(req.body@))[i]);
            &&& param == "wfd_client_rtp_ports"@ ==> exists|p: Seq<char>, q: Seq<char>|
                {
                    &&& names_port(p, rtp_port as int)
                    &&& names_port(q, rtp_port + 1)
                    &&& text::occurs(
                        out@,
                        #[trigger] (param + ": RTP/AVP/UDP;unicast "@ + p + " "@ + q
                            + " mode=play"@),
                    )
                }
            &&& param == "wfd_content_protection"@ || param == "wfd_display_edid"@ || param
                == "wfd_coupled_sink"@ || param == "wfd_uibc_capability"@ || param
                == "wfd_standby_resume_capability"@ ==> text::occurs(out@, param + ": none"@)
            &&& param == "wfd_presentation_URL"@ ==> text::occurs(out@, param + ": none none"@)
            &&& param == "wfd_audio_codecs"@ ==> text::occurs(out@, param + ": LPCM 00000003 00"@)
            &&& param == "wfd_video_formats"@ ==> text::occurs(
                out@,
                param + ": 00 00 02 02 00008400 00000000 00000000 00 0000 0000 00 none none"@,
            )
        }),
{
    let lines = text::lines_of(text::trimmed(req.body@));
    let param = text::trimmed(lines[i]);
    law_capabilities(param, rtp_port);
    let said = rtsp::parameter_lines(lines, rtp_port);
    law_query_is_answered_line_by_line(lines, rtp_port);
    assert(lines.len() > 0);
    let body = text::trimmed(req.body@);
    if body.len() == 0 {
        assert(body =~= seq![]);
        text::law_lines(seq![], seq![]);
    }
    let answer = text::joined(said, "\r\n"@) + "\r\n"@;
    assert(out@ == rtsp::response(cseq@, 200, "OK"@, seq![], answer));
    let own = rtsp::parameter_line(param, rtp_port);
    if own.len() > 0 {
        let line = own[0];
        assert(said.contains(line));
        let k = choose|k: int| 0 <= k < said.len() && said[k] == line;
        lemma_occurs_in_joined(said, "\r\n"@, k);
        let front = "RTSP/1.0 "@ + text::decimal(200) + " "@ + "OK"@ + "\r\n"@ + "CSeq: "@ + cseq@
            + "\r\n"@ + "Server: nicocast/1.0\r\n"@ + rtsp::header_lines(seq![])
            + rtsp::body_headers(answer) + "\r\n"@;
        lemma_occurs_within(front, text::joined(said, "\r\n"@), "\r\n"@, line);
        assert(front + text::joined(said, "\r\n"@) + "\r\n"@ =~= out@);
        assert(text::occurs(out@, line));
    }
}

} // verus!
