//! Text primitives over sequences of characters.
//!
//! Every function here states its result on the mathematical sequence of
//! characters of its argument, so that the protocol modules can describe
//! whole messages as concatenations.

use vstd::prelude::*;

verus! {

// ---------------------------------------------------------------------------
// Strings and characters
// ---------------------------------------------------------------------------

/// Contract of `String::push`: the character is appended at the end.
pub assume_specification[ String::push ](s: &mut String, c: char)
    ensures
        final(s)@ == old(s)@.push(c),
;

/// The characters of `s`, in order.
pub fn chars_of(s: &str) -> (out: Vec<char>)
    ensures
        out@ == s@,
{
    let mut out: Vec<char> = Vec::new();
    for c in it: s.chars()
        invariant
            it.seq() == s@,
            out@ == s@.take(it.index()),
    {
        out.push(c);
        assert(s@.take(it.index() + 1) == s@.take(it.index()).push(c));
    }
    assert(s@.take(s@.len() as int) == s@);
    out
}

/// The string made of `chars`.
pub fn text_of(chars: &[char]) -> (out: String)
    ensures
        out@ == chars@,
{
    let mut out = String::new();
    for i in 0..chars.len()
        invariant
            out@ == chars@.take(i as int),
    {
        out.push(chars[i]);
        assert(chars@.take(i + 1) == chars@.take(i as int).push(chars@[i as int]));
    }
    assert(chars@.take(chars@.len() as int) == chars@);
    out
}

/// The characters of `chars` from index `from` up to, not including, `to`.
pub fn chars_between(chars: &[char], from: usize, to: usize) -> (out: Vec<char>)
    requires
        from <= to <= chars@.len(),
    ensures
        out@ == chars@.subrange(from as int, to as int),
{
    vstd::slice::slice_to_vec(vstd::slice::slice_subrange(chars, from, to))
}

/// Two strings are equal as soon as their encodings are.
pub proof fn lemma_encoding_determines_text(a: Seq<char>, b: Seq<char>)
    ensures
        (vstd::utf8::encode_utf8(a) == vstd::utf8::encode_utf8(b)) == (a == b),
{
    vstd::utf8::encode_utf8_decode_utf8(a);
    vstd::utf8::encode_utf8_decode_utf8(b);
}

/// The encoding of two texts in a row is their encodings in a row.
pub proof fn lemma_encoding_of_concat(a: Seq<char>, b: Seq<char>)
    ensures
        vstd::utf8::encode_utf8(a + b) == vstd::utf8::encode_utf8(a) + vstd::utf8::encode_utf8(b),
        byte_len(a + b) == byte_len(a) + byte_len(b),
    decreases a.len(),
{
    if a.len() == 0 {
        assert(a + b =~= b);
        assert(vstd::utf8::encode_utf8(a) + vstd::utf8::encode_utf8(b)
            =~= vstd::utf8::encode_utf8(b));
    } else {
        lemma_encoding_of_concat(a.drop_first(), b);
        assert((a + b).drop_first() =~= a.drop_first() + b);
        assert(vstd::utf8::encode_utf8(a + b) =~= vstd::utf8::encode_utf8(a)
            + vstd::utf8::encode_utf8(b));
    }
}

/// Decoding the encoding of a text gives the text back.
pub proof fn lemma_decoded_encoding(s: Seq<char>)
    ensures
        vstd::utf8::valid_utf8(vstd::utf8::encode_utf8(s)),
        decoded(vstd::utf8::encode_utf8(s)) == s,
{
    vstd::utf8::encode_utf8_valid_utf8(s);
    vstd::utf8::encode_utf8_decode_utf8(s);
}

/// Whether two strings hold the same characters.
pub fn same(a: &str, b: &str) -> (r: bool)
    ensures
        r == (a@ == b@),
{
    let x = a.as_bytes();
    let y = b.as_bytes();
    proof {
        lemma_encoding_determines_text(a@, b@);
    }
    if x.len() != y.len() {
        return false;
    }
    for i in 0..x.len()
        invariant
            x@.len() == y@.len(),
            (x@ == y@) == (a@ == b@),
            forall|j: int| 0 <= j < i ==> x@[j] == y@[j],
    {
        if x[i] != y[i] {
            assert(x@ != y@);
            return false;
        }
    }
    assert(x@ =~= y@);
    true
}

/// `std::str::Utf8Error`, which says where a byte string stops being UTF-8.
#[verifier::external_type_specification]
#[verifier::external_body]
pub struct ExUtf8Error(std::str::Utf8Error);

/// Contract of `std::str::from_utf8`: it succeeds exactly on valid UTF-8, and
/// then gives the string with these bytes.
pub assume_specification[ std::str::from_utf8 ](v: &[u8]) -> (r: Result<
    &str,
    std::str::Utf8Error,
>)
    ensures
        r is Ok <==> vstd::utf8::valid_utf8(v@),
        r matches Ok(s) ==> vstd::utf8::encode_utf8(s@) == v@,
;

/// The text that `bytes` hold in UTF-8, and no text where they are not UTF-8.
pub open spec fn decoded(bytes: Seq<u8>) -> Seq<char> {
    if vstd::utf8::valid_utf8(bytes) {
        vstd::utf8::decode_utf8(bytes)
    } else {
        seq![]
    }
}

/// The text that `bytes` hold in UTF-8, and no text where they are not UTF-8.
pub fn decode(bytes: &[u8]) -> (s: &str)
    ensures
        s@ == decoded(bytes@),
{
    match std::str::from_utf8(bytes) {
        Ok(s) => {
            proof {
                vstd::utf8::encode_utf8_decode_utf8(s@);
            }
            s
        },
        Err(_) => {
            proof {
                reveal_strlit("");
                assert(""@ =~= Seq::<char>::empty());
            }
            ""
        },
    }
}

/// The number of bytes that `s` takes in UTF-8.
pub open spec fn byte_len(s: Seq<char>) -> nat {
    vstd::utf8::encode_utf8(s).len()
}

/// The texts of a sequence of strings.
pub open spec fn texts(v: Seq<String>) -> Seq<Seq<char>> {
    v.map_values(|s: String| s@)
}

/// The texts of a sequence of borrowed strings.
pub open spec fn str_texts(v: Seq<&str>) -> Seq<Seq<char>> {
    v.map_values(|s: &str| s@)
}

/// The texts of a sequence of character vectors.
pub open spec fn rows(v: Seq<Vec<char>>) -> Seq<Seq<char>> {
    v.map_values(|r: Vec<char>| r@)
}

/// The text of an optional string.
pub open spec fn opt_text(s: Option<String>) -> Option<Seq<char>> {
    match s {
        Some(t) => Some(t@),
        None => None,
    }
}

// ---------------------------------------------------------------------------
// Searching
// ---------------------------------------------------------------------------

/// The index of the first `c` in `s`, or the length of `s` where there is none.
pub open spec fn find_char(s: Seq<char>, c: char) -> int
    decreases s.len(),
{
    if s.len() == 0 {
        0
    } else if s[0] == c {
        0
    } else {
        1 + find_char(s.drop_first(), c)
    }
}

/// What `find_char` finds: an index below which `c` does not occur.
pub proof fn lemma_find_char(s: Seq<char>, c: char)
    ensures
        0 <= find_char(s, c) <= s.len(),
        forall|j: int| 0 <= j < find_char(s, c) ==> s[j] != c,
        find_char(s, c) < s.len() ==> s[find_char(s, c)] == c,
    decreases s.len(),
{
    if s.len() > 0 && s[0] != c {
        let rest = s.drop_first();
        lemma_find_char(rest, c);
        assert forall|j: int| 0 <= j < find_char(s, c) implies s[j] != c by {
            if j > 0 {
                assert(rest[j - 1] == s[j]);
            }
        }
    }
}

/// The index found is the only one with that property.
pub proof fn lemma_find_char_is(s: Seq<char>, c: char, k: int)
    requires
        0 <= k <= s.len(),
        forall|j: int| 0 <= j < k ==> s[j] != c,
        k < s.len() ==> s[k] == c,
    ensures
        find_char(s, c) == k,
{
    lemma_find_char(s, c);
}

/// Index of the first `c` at or after `from`, or the length of `chars`.
pub fn find_char_from(chars: &[char], from: usize, c: char) -> (r: usize)
    requires
        from <= chars@.len(),
    ensures
        r == from + find_char(chars@.skip(from as int), c),
        from <= r <= chars@.len(),
        r < chars@.len() ==> chars@[r as int] == c,
        forall|j: int| from <= j < r ==> chars@[j] != c,
{
    let mut i = from;
    while i < chars.len() && chars[i] != c
        invariant
            from <= i <= chars@.len(),
            forall|j: int| from <= j < i ==> chars@[j] != c,
        decreases chars@.len() - i,
    {
        i = i + 1;
    }
    proof {
        let s = chars@.skip(from as int);
        assert forall|j: int| 0 <= j < i - from implies s[j] != c by {
            assert(s[j] == chars@[from + j]);
        }
        lemma_find_char_is(s, c, i - from);
    }
    i
}

/// The index of the last `c` in `s`, or -1 where there is none.
pub open spec fn find_last_char(s: Seq<char>, c: char) -> int
    decreases s.len(),
{
    if s.len() == 0 {
        -1
    } else if s.last() == c {
        s.len() - 1
    } else {
        find_last_char(s.drop_last(), c)
    }
}

/// What `find_last_char` finds: an index above which `c` does not occur.
pub proof fn lemma_find_last_char(s: Seq<char>, c: char)
    ensures
        -1 <= find_last_char(s, c) < s.len(),
        forall|j: int| find_last_char(s, c) < j < s.len() ==> s[j] != c,
        find_last_char(s, c) >= 0 ==> s[find_last_char(s, c)] == c,
    decreases s.len(),
{
    if s.len() > 0 && s.last() != c {
        let rest = s.drop_last();
        lemma_find_last_char(rest, c);
        assert forall|j: int| find_last_char(s, c) < j < s.len() implies s[j] != c by {
            if j < s.len() - 1 {
                assert(rest[j] == s[j]);
            }
        }
    }
}

/// Index of the last `c` in `chars`.
pub fn rfind_char(chars: &[char], c: char) -> (r: Option<usize>)
    ensures
        match r {
            Some(i) => find_last_char(chars@, c) == i,
            None => find_last_char(chars@, c) == -1,
        },
{
    proof {
        lemma_find_last_char(chars@, c);
    }
    let mut i: usize = chars.len();
    while i > 0
        invariant
            find_last_char(chars@, c) < i <= chars@.len(),
            -1 <= find_last_char(chars@, c),
            forall|j: int| find_last_char(chars@, c) < j < chars@.len() ==> chars@[j] != c,
            find_last_char(chars@, c) >= 0 ==> chars@[find_last_char(chars@, c)] == c,
        decreases i,
    {
        if chars[i - 1] == c {
            return Some(i - 1);
        }
        i = i - 1;
    }
    None
}

/// Whether `needle` stands in `hay` at index `i`.
pub open spec fn occurs_at(hay: Seq<char>, needle: Seq<char>, i: int) -> bool {
    0 <= i && i + needle.len() <= hay.len() && hay.subrange(i, i + needle.len()) == needle
}

/// Whether `needle` stands anywhere in `hay`.
pub open spec fn occurs(hay: Seq<char>, needle: Seq<char>) -> bool {
    exists|i: int| occurs_at(hay, needle, i)
}

/// Whether `i` is the first place at which `needle` stands in `hay`.
pub open spec fn first_at(hay: Seq<char>, needle: Seq<char>, i: int) -> bool {
    occurs_at(hay, needle, i) && forall|j: int| 0 <= j < i ==> !occurs_at(hay, needle, j)
}

/// Whether `needle` stands in `hay` at index `i`.
pub fn stands_at(hay: &[char], needle: &[char], i: usize) -> (r: bool)
    ensures
        r == occurs_at(hay@, needle@, i as int),
{
    if i > hay.len() || needle.len() > hay.len() - i {
        return false;
    }
    for k in 0..needle.len()
        invariant
            i + needle@.len() <= hay@.len() == hay.len(),
            forall|j: int| 0 <= j < k ==> hay@[i + j] == needle@[j],
    {
        if hay[i + k] != needle[k] {
            assert(hay@.subrange(i as int, i + needle@.len())[k as int] != needle@[k as int]);
            return false;
        }
    }
    assert(hay@.subrange(i as int, i + needle@.len()) =~= needle@);
    true
}

/// First index at which `needle` stands in `hay`.
pub fn find(hay: &[char], needle: &[char]) -> (r: Option<usize>)
    ensures
        match r {
            Some(i) => first_at(hay@, needle@, i as int),
            None => !occurs(hay@, needle@),
        },
{
    let mut i: usize = 0;
    while i < hay.len()
        invariant
            i <= hay@.len(),
            forall|j: int| 0 <= j < i ==> !occurs_at(hay@, needle@, j),
        decreases hay@.len() - i,
    {
        if stands_at(hay, needle, i) {
            return Some(i);
        }
        i = i + 1;
    }
    if stands_at(hay, needle, i) {
        return Some(i);
    }
    None
}

/// Whether `needle` stands anywhere in `hay`.
pub fn contains(hay: &str, needle: &str) -> (r: bool)
    ensures
        r == occurs(hay@, needle@),
{
    let h = chars_of(hay);
    let n = chars_of(needle);
    match find(h.as_slice(), n.as_slice()) {
        Some(i) => {
            assert(occurs_at(hay@, needle@, i as int));
            true
        },
        None => false,
    }
}

/// Whether `s` begins with `prefix`.
pub fn starts_with(s: &str, prefix: &str) -> (r: bool)
    ensures
        r == occurs_at(s@, prefix@, 0),
{
    let h = chars_of(s);
    let n = chars_of(prefix);
    stands_at(h.as_slice(), n.as_slice(), 0)
}

// ---------------------------------------------------------------------------
// White space
// ---------------------------------------------------------------------------

/// The characters with the Unicode property White_Space.
pub open spec fn is_space(c: char) -> bool {
    ||| '\u{9}' <= c <= '\u{d}'
    ||| c == '\u{20}'
    ||| c == '\u{85}'
    ||| c == '\u{a0}'
    ||| c == '\u{1680}'
    ||| '\u{2000}' <= c <= '\u{200a}'
    ||| c == '\u{2028}'
    ||| c == '\u{2029}'
    ||| c == '\u{202f}'
    ||| c == '\u{205f}'
    ||| c == '\u{3000}'
}

/// Whether `c` is white space.
pub fn space(c: char) -> (r: bool)
    ensures
        r == is_space(c),
{
    ('\u{9}' <= c && c <= '\u{d}') || c == '\u{20}' || c == '\u{85}' || c == '\u{a0}' || c
        == '\u{1680}' || ('\u{2000}' <= c && c <= '\u{200a}') || c == '\u{2028}' || c == '\u{2029}'
        || c == '\u{202f}' || c == '\u{205f}' || c == '\u{3000}'
}

/// `s` without the white space at its beginning.
pub open spec fn trimmed_start(s: Seq<char>) -> Seq<char>
    decreases s.len(),
{
    if s.len() > 0 && is_space(s[0]) {
        trimmed_start(s.drop_first())
    } else {
        s
    }
}

/// `s` without the white space at its end.
pub open spec fn trimmed_end(s: Seq<char>) -> Seq<char>
    decreases s.len(),
{
    if s.len() > 0 && is_space(s.last()) {
        trimmed_end(s.drop_last())
    } else {
        s
    }
}

/// `s` without the white space at its two ends.
pub open spec fn trimmed(s: Seq<char>) -> Seq<char> {
    trimmed_end(trimmed_start(s))
}

/// `chars` without the white space at its two ends.
pub fn trim(chars: &[char]) -> (out: Vec<char>)
    ensures
        out@ == trimmed(chars@),
{
    let mut from: usize = 0;
    assert(chars@.skip(0) == chars@);
    while from < chars.len() && space(chars[from])
        invariant
            from <= chars@.len(),
            trimmed_start(chars@.skip(from as int)) == trimmed_start(chars@),
        decreases chars@.len() - from,
    {
        assert(chars@.skip(from as int).drop_first() == chars@.skip(from + 1));
        from = from + 1;
    }
    let mut to: usize = chars.len();
    assert(chars@.subrange(from as int, to as int) == chars@.skip(from as int));
    while to > from && space(chars[to - 1])
        invariant
            from <= to <= chars@.len(),
            trimmed_end(chars@.subrange(from as int, to as int)) == trimmed(chars@),
        decreases to,
    {
        assert(chars@.subrange(from as int, to as int).drop_last() == chars@.subrange(
            from as int,
            to - 1,
        ));
        to = to - 1;
    }
    chars_between(chars, from, to)
}

// ---------------------------------------------------------------------------
// Lines
// ---------------------------------------------------------------------------

/// A line without the carriage return that stood before its line feed.
pub open spec fn without_cr(line: Seq<char>) -> Seq<char> {
    if line.len() > 0 && line.last() == '\r' {
        line.drop_last()
    } else {
        line
    }
}

/// The lines of `s`.  A line ends at a line feed, or at a carriage return and
/// a line feed; the last line need not end.
pub open spec fn lines_of(s: Seq<char>) -> Seq<Seq<char>>
    decreases s.len(),
{
    if s.len() == 0 {
        seq![]
    } else {
        let i = find_char(s, '\n');
        if 0 <= i < s.len() {
            seq![without_cr(s.take(i))] + lines_of(s.skip(i + 1))
        } else {
            seq![s]
        }
    }
}

/// The lines of `chars`.
pub fn lines(chars: &[char]) -> (out: Vec<Vec<char>>)
    ensures
        rows(out@) == lines_of(chars@),
{
    let mut out: Vec<Vec<char>> = Vec::new();
    let mut at: usize = 0;
    assert(chars@.skip(0) == chars@);
    assert(rows(out@) + lines_of(chars@) =~= lines_of(chars@));
    while at < chars.len()
        invariant
            at <= chars@.len(),
            rows(out@) + lines_of(chars@.skip(at as int)) == lines_of(chars@),
        decreases chars@.len() - at,
    {
        let end = find_char_from(chars, at, '\n');
        let ghost rest = chars@.skip(at as int);
        let ghost before = rows(out@);
        if end == chars.len() {
            let line = chars_between(chars, at, end);
            assert(line@ == rest);
            out.push(line);
            assert(rows(out@) == before.push(rest));
            assert(lines_of(rest) == seq![rest]);
            assert(before + seq![rest] =~= before.push(rest));
            at = end;
            assert(lines_of(chars@.skip(at as int)) == Seq::<Seq<char>>::empty());
            assert(rows(out@) + Seq::<Seq<char>>::empty() =~= rows(out@));
        } else {
            let to = if end > at && chars[end - 1] == '\r' {
                end - 1
            } else {
                end
            };
            let line = chars_between(chars, at, to);
            proof {
                let i = find_char(rest, '\n');
                assert(rest.take(i) == chars@.subrange(at as int, end as int));
                assert(line@ == without_cr(rest.take(i)));
                assert(rest.skip(i + 1) == chars@.skip(end + 1));
            }
            let ghost row = line@;
            out.push(line);
            assert(rows(out@) == before.push(row));
            assert(before + (seq![row] + lines_of(chars@.skip(end + 1))) =~= before.push(row)
                + lines_of(chars@.skip(end + 1)));
            at = end + 1;
        }
    }
    assert(rows(out@) + Seq::<Seq<char>>::empty() =~= rows(out@));
    out
}

/// `parts` one after the other, with `sep` between each two.
pub open spec fn joined(parts: Seq<Seq<char>>, sep: Seq<char>) -> Seq<char>
    decreases parts.len(),
{
    if parts.len() == 0 {
        seq![]
    } else if parts.len() == 1 {
        parts[0]
    } else {
        joined(parts.drop_last(), sep) + sep + parts.last()
    }
}

/// Join rows `from..` of `parts` with `sep` between each two.
pub fn join_rows(parts: &[Vec<char>], from: usize, sep: &str) -> (out: String)
    requires
        from <= parts@.len(),
    ensures
        out@ == joined(rows(parts@).skip(from as int), sep@),
{
    let mut out = String::new();
    let ghost all = rows(parts@).skip(from as int);
    for i in from..parts.len()
        invariant
            from <= parts@.len(),
            all == rows(parts@).skip(from as int),
            out@ == joined(all.take(i - from), sep@),
    {
        let row = text_of(parts[i].as_slice());
        proof {
            let next = all.take(i - from + 1);
            assert(next.drop_last() == all.take(i - from));
            assert(next.last() == row@);
        }
        if i != from {
            out.append(sep);
        }
        out.append(row.as_str());
    }
    assert(all.take(all.len() as int) == all);
    out
}

// ---------------------------------------------------------------------------
// Letter case
// ---------------------------------------------------------------------------

/// `c` with an ASCII upper-case letter replaced by its lower-case one.
pub open spec fn lower(c: char) -> char {
    if 'A' <= c <= 'Z' {
        (c as int + 32) as char
    } else {
        c
    }
}

/// `s` with its ASCII letters in lower case.
pub open spec fn lowered(s: Seq<char>) -> Seq<char> {
    s.map_values(|c: char| lower(c))
}

/// `c` with an ASCII upper-case letter replaced by its lower-case one.
pub fn to_lower(c: char) -> (r: char)
    ensures
        r == lower(c),
{
    if 'A' <= c && c <= 'Z' {
        ((c as u8) + 32) as char
    } else {
        c
    }
}

/// Whether two strings are the same up to the case of ASCII letters.
pub fn same_ignoring_case(a: &str, b: &str) -> (r: bool)
    ensures
        r == (lowered(a@) == lowered(b@)),
{
    let x = chars_of(a);
    let y = chars_of(b);
    if x.len() != y.len() {
        assert(lowered(a@).len() != lowered(b@).len());
        return false;
    }
    for i in 0..x.len()
        invariant
            x@ == a@,
            y@ == b@,
            x@.len() == y@.len(),
            forall|j: int| 0 <= j < i ==> lower(x@[j]) == lower(y@[j]),
    {
        if to_lower(x[i]) != to_lower(y[i]) {
            assert(lowered(a@)[i as int] != lowered(b@)[i as int]);
            return false;
        }
    }
    assert(lowered(a@) =~= lowered(b@));
    true
}

// ---------------------------------------------------------------------------
// Numbers
// ---------------------------------------------------------------------------

/// The decimal digit for a value below ten.
pub open spec fn digit(d: int) -> char {
    (48 + d) as char
}

/// Whether `c` is an ASCII decimal digit.
pub open spec fn is_digit(c: char) -> bool {
    '0' <= c <= '9'
}

/// `n` in decimal, without leading zeros.
pub open spec fn decimal(n: nat) -> Seq<char>
    decreases n,
{
    if n < 10 {
        seq![digit(n as int)]
    } else {
        decimal(n / 10).push(digit((n % 10) as int))
    }
}

/// Append `n` in decimal.
pub fn push_decimal(out: &mut String, n: u64)
    ensures
        final(out)@ == old(out)@ + decimal(n as nat),
    decreases n,
{
    if n >= 10 {
        push_decimal(out, n / 10);
    }
    let d: u8 = (n % 10) as u8;
    out.push((48u8 + d) as char);
    assert(out@ =~= old(out)@ + decimal(n as nat));
}

/// The lower-case hexadecimal digit for a value below sixteen.
pub open spec fn hex_digit(d: int) -> char {
    if d < 10 {
        (48 + d) as char
    } else {
        (87 + d) as char
    }
}

/// The last `width` hexadecimal digits of `n`, in lower case.
pub open spec fn hex_fixed(n: nat, width: nat) -> Seq<char>
    decreases width,
{
    if width == 0 {
        seq![]
    } else {
        hex_fixed(n / 16, (width - 1) as nat).push(hex_digit((n % 16) as int))
    }
}

/// Append the last `width` hexadecimal digits of `n`.
pub fn push_hex(out: &mut String, n: u64, width: u8)
    ensures
        final(out)@ == old(out)@ + hex_fixed(n as nat, width as nat),
    decreases width,
{
    if width > 0 {
        push_hex(out, n / 16, width - 1);
        let d: u8 = (n % 16) as u8;
        if d < 10 {
            out.push((48u8 + d) as char);
        } else {
            out.push((87u8 + d) as char);
        }
    }
    assert(out@ =~= old(out)@ + hex_fixed(n as nat, width as nat));
}

/// The value of a string of decimal digits.
pub open spec fn digits_value(s: Seq<char>) -> nat
    decreases s.len(),
{
    if s.len() == 0 {
        0
    } else {
        digits_value(s.drop_last()) * 10 + (s.last() as int - 48) as nat
    }
}

/// `s` without one plus sign at its beginning.
pub open spec fn without_plus(s: Seq<char>) -> Seq<char> {
    if s.len() > 0 && s[0] == '+' {
        s.drop_first()
    } else {
        s
    }
}

/// The unsigned decimal number that `s` spells, where it is at most `max`: one
/// plus sign is allowed, and at least one digit is needed.
pub open spec fn unsigned(s: Seq<char>, max: nat) -> Option<nat> {
    let digits = without_plus(s);
    if digits.len() > 0 && (forall|i: int| 0 <= i < digits.len() ==> is_digit(#[trigger] digits[i]))
        && digits_value(digits) <= max {
        Some(digits_value(digits))
    } else {
        None
    }
}

/// Taking further digits never makes the value smaller.
proof fn lemma_digits_value_grows(s: Seq<char>, k: int)
    requires
        0 <= k <= s.len(),
        forall|i: int| 0 <= i < s.len() ==> is_digit(#[trigger] s[i]),
    ensures
        digits_value(s.take(k)) <= digits_value(s),
    decreases s.len() - k,
{
    if k < s.len() {
        lemma_digits_value_grows(s, k + 1);
        assert(s.take(k + 1).drop_last() == s.take(k));
        assert(is_digit(s.take(k + 1).last()));
    } else {
        assert(s.take(k) == s);
    }
}

/// Reading a number in decimal gives the number back.
pub proof fn law_decimal_round_trip(n: nat, max: nat)
    requires
        n <= max,
    ensures
        unsigned(decimal(n), max) == Some(n),
{
    lemma_decimal(n);
    assert(is_digit(decimal(n)[0]));
}

/// The characters of a number in decimal are digits with its value.
pub proof fn lemma_decimal(n: nat)
    ensures
        decimal(n).len() > 0,
        forall|i: int| 0 <= i < decimal(n).len() ==> is_digit(#[trigger] decimal(n)[i]),
        digits_value(decimal(n)) == n,
    decreases n,
{
    if n < 10 {
        assert(decimal(n).drop_last() =~= Seq::<char>::empty());
        reveal_with_fuel(digits_value, 2);
    } else {
        lemma_decimal(n / 10);
        assert(decimal(n).drop_last() =~= decimal(n / 10));
        assert forall|i: int| 0 <= i < decimal(n).len() implies is_digit(
            #[trigger] decimal(n)[i],
        ) by {
            if i < decimal(n).len() - 1 {
                assert(decimal(n)[i] == decimal(n / 10)[i]);
            }
        }
    }
}

/// Read an unsigned decimal number that is at most `max`.
pub fn parse_unsigned(chars: &[char], max: u64) -> (r: Option<u64>)
    ensures
        match r {
            Some(n) => unsigned(chars@, max as nat) == Some(n as nat),
            None => unsigned(chars@, max as nat) is None,
        },
{
    let from: usize = if chars.len() > 0 && chars[0] == '+' {
        1
    } else {
        0
    };
    let ghost digits = without_plus(chars@);
    assert(digits =~= chars@.skip(from as int));
    if from == chars.len() {
        return None;
    }
    let mut value: u64 = 0;
    for i in from..chars.len()
        invariant
            from <= chars@.len(),
            digits == without_plus(chars@),
            digits == chars@.skip(from as int),
            value <= max,
            value == digits_value(digits.take(i - from)),
            forall|j: int| 0 <= j < i - from ==> is_digit(#[trigger] digits[j]),
    {
        let c = chars[i];
        assert(digits[i - from] == c);
        if !('0' <= c && c <= '9') {
            return None;
        }
        let d: u64 = (c as u8 - 48) as u64;
        proof {
            let next = digits.take(i - from + 1);
            assert(next.drop_last() == digits.take(i - from));
            assert(next.last() == c);
            assert(digits_value(next) == value * 10 + d);
            if forall|j: int| 0 <= j < digits.len() ==> is_digit(#[trigger] digits[j]) {
                lemma_digits_value_grows(digits, i - from + 1);
            }
        }
        if value > max / 10 {
            return None;
        }
        if d > max - value * 10 {
            return None;
        }
        value = value * 10 + d;
    }
    assert(digits.take(digits.len() as int) == digits);
    Some(value)
}

// ---------------------------------------------------------------------------
// Laws
// ---------------------------------------------------------------------------

/// A text stands at a place exactly where each of its characters does.
pub proof fn law_occurs_at(hay: Seq<char>, needle: Seq<char>, i: int)
    ensures
        occurs_at(hay, needle, i) <==> 0 <= i && i + needle.len() <= hay.len() && (forall|k: int|
            0 <= k < needle.len() ==> hay[i + k] == #[trigger] needle[k]),
{
    if 0 <= i && i + needle.len() <= hay.len() {
        let part = hay.subrange(i, i + needle.len());
        if part == needle {
            assert forall|k: int| 0 <= k < needle.len() implies hay[i + k]
                == #[trigger] needle[k] by {
                assert(part[k] == hay[i + k]);
            }
        }
        if forall|k: int| 0 <= k < needle.len() ==> hay[i + k] == #[trigger] needle[k] {
            assert(part =~= needle);
        }
    }
}

/// A text stands in another exactly where there is a text before it and a text
/// after it that make up the other.
pub proof fn law_occurs(hay: Seq<char>, needle: Seq<char>)
    ensures
        occurs(hay, needle) <==> exists|before: Seq<char>, after: Seq<char>|
            hay == #[trigger] (before + needle + after),
{
    if occurs(hay, needle) {
        let i = choose|i: int| occurs_at(hay, needle, i);
        let before = hay.take(i);
        let after = hay.skip(i + needle.len());
        assert(hay =~= before + hay.subrange(i, i + needle.len()) + after);
        assert(hay == before + needle + after);
    }
    if exists|before: Seq<char>, after: Seq<char>| hay == #[trigger] (before + needle + after) {
        let (before, after) = choose|before: Seq<char>, after: Seq<char>|
            hay == #[trigger] (before + needle + after);
        let i = before.len() as int;
        assert(hay.subrange(i, i + needle.len()) =~= needle);
        assert(occurs_at(hay, needle, i));
    }
}

/// The first place of a text comes before every other.
pub proof fn law_first_at(hay: Seq<char>, needle: Seq<char>, i: int, j: int)
    requires
        first_at(hay, needle, i),
        occurs_at(hay, needle, j),
    ensures
        occurs_at(hay, needle, i),
        i <= j,
{
}

/// How much white space stands at the beginning of a text.
proof fn lemma_trimmed_start(s: Seq<char>) -> (i: int)
    ensures
        0 <= i <= s.len(),
        trimmed_start(s) == s.skip(i),
        forall|k: int| 0 <= k < i ==> is_space(#[trigger] s[k]),
        i < s.len() ==> !is_space(s[i]),
    decreases s.len(),
{
    if s.len() > 0 && is_space(s[0]) {
        let rest = s.drop_first();
        let i = lemma_trimmed_start(rest);
        assert(rest.skip(i) =~= s.skip(i + 1));
        assert forall|k: int| 0 <= k < i + 1 implies is_space(#[trigger] s[k]) by {
            if k > 0 {
                assert(rest[k - 1] == s[k]);
            }
        }
        i + 1
    } else {
        assert(s.skip(0) =~= s);
        0
    }
}

/// Where the white space at the end of a text begins.
proof fn lemma_trimmed_end(s: Seq<char>) -> (j: int)
    ensures
        0 <= j <= s.len(),
        trimmed_end(s) == s.take(j),
        forall|k: int| j <= k < s.len() ==> is_space(#[trigger] s[k]),
        j > 0 ==> !is_space(s[j - 1]),
    decreases s.len(),
{
    if s.len() > 0 && is_space(s.last()) {
        let rest = s.drop_last();
        let j = lemma_trimmed_end(rest);
        assert(rest.take(j) =~= s.take(j));
        assert forall|k: int| j <= k < s.len() implies is_space(#[trigger] s[k]) by {
            if k < s.len() - 1 {
                assert(rest[k] == s[k]);
            }
        }
        j
    } else {
        assert(s.take(s.len() as int) =~= s);
        s.len() as int
    }
}

/// Trimming takes white space away from the two ends, all of it, and nothing
/// else.
pub proof fn law_trimmed(s: Seq<char>)
    ensures
        exists|i: int, j: int|
            {
                &&& 0 <= i <= j <= s.len()
                &&& trimmed(s) == #[trigger] s.subrange(i, j)
                &&& forall|k: int| 0 <= k < i || j <= k < s.len() ==> is_space(#[trigger] s[k])
                &&& i < j ==> !is_space(s[i]) && !is_space(s[j - 1])
            },
{
    let i = lemma_trimmed_start(s);
    let t = s.skip(i);
    let n = lemma_trimmed_end(t);
    let j = i + n;
    assert(t.take(n) =~= s.subrange(i, j));
    assert forall|k: int| 0 <= k < i || j <= k < s.len() implies is_space(#[trigger] s[k]) by {
        if j <= k {
            assert(t[k - i] == s[k]);
        }
    }
    if i < j {
        assert(t[n - 1] == s[j - 1]);
    }
}

/// A text without a line feed is one line; a line feed ends a line and takes a
/// carriage return before it away; and what follows has its own lines.
pub proof fn law_lines(line: Seq<char>, more: Seq<char>)
    requires
        !line.contains('\n'),
    ensures
        lines_of(seq![]) == Seq::<Seq<char>>::empty(),
        line.len() > 0 ==> lines_of(line) == seq![line],
        lines_of(line + seq!['\n'] + more) == seq![
            if line.len() > 0 && line.last() == '\r' {
                line.drop_last()
            } else {
                line
            },
        ] + lines_of(more),
{
    let k = line.len() as int;
    assert forall|j: int| 0 <= j < k implies line[j] != '\n' by {}
    lemma_find_char_is(line, '\n', k);
    let all = line + seq!['\n'] + more;
    assert forall|j: int| 0 <= j < k implies all[j] != '\n' by {
        assert(all[j] == line[j]);
    }
    assert(all[k] == '\n');
    lemma_find_char_is(all, '\n', k);
    assert(all.take(k) =~= line);
    assert(all.skip(k + 1) =~= more);
}

/// Parts are joined in their order, with the separator between each two and
/// nowhere else.
pub proof fn law_joined(parts: Seq<Seq<char>>, x: Seq<char>, sep: Seq<char>)
    ensures
        joined(seq![], sep) == Seq::<char>::empty(),
        joined(seq![x], sep) == x,
        parts.len() > 0 ==> joined(parts.push(x), sep) == joined(parts, sep) + sep + x,
        parts.len() > 0 ==> joined(seq![x] + parts, sep) == x + sep + joined(parts, sep),
    decreases parts.len(),
{
    assert(parts.push(x).drop_last() =~= parts);
    let all = seq![x] + parts;
    if parts.len() == 1 {
        assert(all.drop_last() =~= seq![x]);
        assert(all.last() == parts[0]);
        assert(joined(all, sep) == joined(seq![x], sep) + sep + parts[0]);
        assert(joined(parts, sep) == parts[0]);
    } else if parts.len() > 1 {
        let init = parts.drop_last();
        law_joined(init, x, sep);
        assert(all.drop_last() =~= seq![x] + init);
        assert(all.last() == parts.last());
        assert(joined(all, sep) == joined(seq![x] + init, sep) + sep + parts.last());
        assert(joined(parts, sep) == joined(init, sep) + sep + parts.last());
        assert(joined(all, sep) =~= x + sep + joined(parts, sep));
    }
}

/// Whether two characters are the same letter up to its case, or the same
/// character.
pub open spec fn same_letter(a: char, b: char) -> bool {
    ||| a == b
    ||| 'A' <= a <= 'Z' && b as int == a as int + 32
    ||| 'A' <= b <= 'Z' && a as int == b as int + 32
}

/// Whether two names are the same, letter by letter.
pub open spec fn same_name(a: Seq<char>, b: Seq<char>) -> bool {
    a.len() == b.len() && forall|i: int| 0 <= i < a.len() ==> same_letter(#[trigger] a[i], b[i])
}

/// Texts are the same in lower case exactly where they are the same letter by
/// letter, up to the case of ASCII letters.
pub proof fn law_lowered(a: Seq<char>, b: Seq<char>)
    ensures
        lowered(a) == lowered(b) <==> same_name(a, b),
{
    if lowered(a) == lowered(b) {
        assert(lowered(a).len() == a.len() && lowered(b).len() == b.len());
        assert forall|i: int| 0 <= i < a.len() implies same_letter(#[trigger] a[i], b[i]) by {
            assert(lowered(a)[i] == lower(a[i]));
            assert(lowered(b)[i] == lower(b[i]));
            lemma_lower(a[i], b[i]);
        }
    }
    if same_name(a, b) {
        assert forall|i: int| 0 <= i < a.len() implies lowered(a)[i] == lowered(b)[i] by {
            assert(same_letter(a[i], b[i]));
            lemma_lower(a[i], b[i]);
        }
        assert(lowered(a) =~= lowered(b));
    }
}

/// Characters are the same in lower case exactly where they are the same letter.
proof fn lemma_lower(a: char, b: char)
    ensures
        lower(a) == lower(b) <==> same_letter(a, b),
{
}

/// A number in decimal is made of digits, begins with no zero unless it is
/// zero, and ten times a number and a digit is the number followed by the
/// digit.
pub proof fn law_decimal(n: nat, d: nat)
    requires
        d < 10,
    ensures
        decimal(d) == seq!["0123456789"@[d as int]],
        n > 0 ==> decimal(10 * n + d) == decimal(n) + decimal(d),
        n > 0 ==> decimal(n)[0] != '0',
        forall|i: int| 0 <= i < decimal(n).len() ==> '0' <= #[trigger] decimal(n)[i] <= '9',
        unsigned(decimal(n), n) == Some(n),
    decreases n,
{
    reveal_strlit("0123456789");
    lemma_decimal(n);
    law_decimal_round_trip(n, n);
    assert(decimal(d) =~= seq!["0123456789"@[d as int]]);
    if n > 0 {
        assert((10 * n + d) / 10 == n && (10 * n + d) % 10 == d);
        assert(decimal(10 * n + d) =~= decimal(n) + decimal(d));
        if n >= 10 {
            law_decimal(n / 10, d);
            lemma_decimal(n / 10);
            assert(decimal(n)[0] == decimal(n / 10)[0]);
        }
    }
    assert forall|i: int| 0 <= i < decimal(n).len() implies '0' <= #[trigger] decimal(n)[i]
        <= '9' by {
        assert(is_digit(decimal(n)[i]));
    }
}

/// Two numbers are never the same in decimal.
pub proof fn law_decimals_differ(a: nat, b: nat)
    requires
        decimal(a) == decimal(b),
    ensures
        a == b,
{
    lemma_decimal(a);
    lemma_decimal(b);
}

/// A number is read from digits, with one plus sign in front or without, up to
/// the largest one allowed; a digit more makes it ten times as large, and the
/// digit; and nothing else is a number.
pub proof fn law_unsigned(s: Seq<char>, d: nat, max: nat)
    requires
        d < 10,
    ensures
        unsigned(seq![], max) is None,
        unsigned(seq!['+'], max) is None,
        unsigned(decimal(d), max) == (if d <= max {
            Some(d)
        } else {
            None
        }),
        unsigned(s, max) matches Some(n) ==> unsigned(s + decimal(d), max) == (if 10 * n + d
            <= max {
            Some(10 * n + d)
        } else {
            None
        }),
        unsigned(s, max) is Some && s[0] != '+' ==> unsigned(seq!['+'] + s, max) == unsigned(
            s,
            max,
        ),
        (exists|i: int|
            0 <= i < s.len() && !('0' <= #[trigger] s[i] <= '9') && (i > 0 || s[i] != '+'))
            ==> unsigned(s, max) is None,
{
    law_decimal(0, d);
    let c = "0123456789"@[d as int];
    reveal_strlit("0123456789");
    assert(decimal(d) == seq![c]);
    assert(digits_value(seq![c]) == d) by {
        assert(seq![c].drop_last() =~= Seq::<char>::empty());
        reveal_with_fuel(digits_value, 2);
    }
    if let Some(n) = unsigned(s, max) {
        let t = without_plus(s);
        let more = s + decimal(d);
        assert(without_plus(more) =~= t.push(c));
        assert(t.push(c).drop_last() =~= t);
        assert forall|i: int| 0 <= i < t.push(c).len() implies is_digit(
            #[trigger] t.push(c)[i],
        ) by {
            if i < t.len() {
                assert(is_digit(t[i]));
            }
        }
        if s[0] != '+' {
            assert(without_plus(seq!['+'] + s) =~= s);
        }
    }
    if exists|i: int|
        0 <= i < s.len() && !('0' <= #[trigger] s[i] <= '9') && (i > 0 || s[i] != '+') {
        let i = choose|i: int|
            0 <= i < s.len() && !('0' <= #[trigger] s[i] <= '9') && (i > 0 || s[i] != '+');
        let t = without_plus(s);
        if s[0] == '+' {
            assert(t[i - 1] == s[i]);
        } else {
            assert(t[i] == s[i]);
        }
    }
}

/// The hexadecimal digits of a number of fixed width: sixteen times a number
/// and a digit is the number followed by the digit.
pub proof fn law_hex_fixed(n: nat, d: nat, width: nat)
    requires
        d < 16,
    ensures
        hex_fixed(n, 0) == Seq::<char>::empty(),
        hex_fixed(16 * n + d, width + 1) == hex_fixed(n, width).push(
            "0123456789abcdef"@[d as int],
        ),
{
    reveal_strlit("0123456789abcdef");
    assert((16 * n + d) / 16 == n && (16 * n + d) % 16 == d);
    assert(hex_digit(d as int) == "0123456789abcdef"@[d as int]);
}

/// Strings and lists of characters hold the same characters in the same order,
/// and a part of a list holds those between its two ends.
pub proof fn law_characters(
    s: &str,
    chars: &[char],
    from: usize,
    to: usize,
    listed: Vec<char>,
    made: String,
    part: Vec<char>,
    i: int,
)
    requires
        call_ensures(chars_of, (s,), listed),
        call_ensures(text_of, (chars,), made),
        from <= to <= chars@.len(),
        call_ensures(chars_between, (chars, from, to), part),
    ensures
        listed@.len() == s@.len(),
        0 <= i < s@.len() ==> listed@[i] == s@[i],
        made@.len() == chars@.len(),
        0 <= i < chars@.len() ==> made@[i] == chars@[i],
        part@.len() == to - from,
        0 <= i < to - from ==> part@[i] == chars@[from + i],
{
}

/// Two strings are the same exactly where they hold the same characters, and
/// the same up to case exactly where they do so letter by letter.
pub proof fn law_same(a: &str, b: &str, r: bool, ignoring_case: bool)
    requires
        call_ensures(same, (a, b), r),
        call_ensures(same_ignoring_case, (a, b), ignoring_case),
    ensures
        r <==> a@.len() == b@.len() && (forall|i: int|
            0 <= i < a@.len() ==> #[trigger] a@[i] == b@[i]),
        ignoring_case <==> same_name(a@, b@),
{
    law_lowered(a@, b@);
    if a@.len() == b@.len() && (forall|i: int| 0 <= i < a@.len() ==> #[trigger] a@[i] == b@[i]) {
        assert(a@ =~= b@);
    }
}

/// Bytes are decoded to the text whose encoding they are, and to nothing where
/// they are none.
pub proof fn law_decode(bytes: &[u8], s: &str)
    requires
        call_ensures(decode, (bytes,), s),
    ensures
        vstd::utf8::valid_utf8(bytes@) ==> vstd::utf8::encode_utf8(s@) == bytes@,
        !vstd::utf8::valid_utf8(bytes@) ==> s@.len() == 0,
{
    if vstd::utf8::valid_utf8(bytes@) {
        vstd::utf8::decode_utf8_encode_utf8(bytes@);
    }
}

/// The search for a character stops at the first one, or at the end; the search
/// from the end stops at the last one.
pub proof fn law_find_char(
    chars: &[char],
    from: usize,
    c: char,
    r: usize,
    last: Option<usize>,
    i: int,
)
    requires
        from <= chars@.len(),
        call_ensures(find_char_from, (chars, from, c), r),
        call_ensures(rfind_char, (chars, c), last),
    ensures
        from <= r <= chars@.len(),
        r < chars@.len() ==> chars@[r as int] == c,
        from <= i < r ==> chars@[i] != c,
        last matches Some(k) ==> k < chars@.len() && chars@[k as int] == c,
        0 <= i < chars@.len() && chars@[i] == c ==> last is Some && i <= last->0,
{
    lemma_find_last_char(chars@, c);
}

/// A text is found in another exactly where it stands somewhere, and at the
/// first of its places; `contains` and `starts_with` say whether it does, and
/// whether it does at the beginning.
pub proof fn law_find(
    hay: &[char],
    needle: &[char],
    found: Option<usize>,
    s: &str,
    t: &str,
    within: bool,
    in_front: bool,
    before: Seq<char>,
    after: Seq<char>,
)
    requires
        call_ensures(find, (hay, needle), found),
        call_ensures(contains, (s, t), within),
        call_ensures(starts_with, (s, t), in_front),
    ensures
        hay@ == before + needle@ + after ==> found is Some && found->0 <= before.len(),
        found matches Some(i) ==> i + needle@.len() <= hay@.len() && (forall|k: int|
            0 <= k < needle@.len() ==> hay@[i + k] == #[trigger] needle@[k]),
        s@ == before + t@ + after ==> within,
        within ==> exists|b: Seq<char>, a: Seq<char>| s@ == #[trigger] (b + t@ + a),
        s@ == t@ + after ==> in_front,
        in_front ==> exists|a: Seq<char>| s@ == #[trigger] (t@ + a),
{
    law_occurs(hay@, needle@);
    law_occurs(s@, t@);
    if hay@ == before + needle@ + after {
        let i = before.len() as int;
        assert(hay@.subrange(i, i + needle@.len()) =~= needle@);
        assert(occurs_at(hay@, needle@, i));
    }
    if let Some(i) = found {
        law_occurs_at(hay@, needle@, i as int);
    }
    if s@ == t@ + after {
        assert(s@.subrange(0, t@.len() as int) =~= t@);
    }
    if in_front {
        let a = s@.skip(t@.len() as int);
        assert(s@ =~= s@.subrange(0, t@.len() as int) + a);
        assert(s@ == t@ + a);
    }
}

/// The white space is that of Unicode: the controls from tab to carriage
/// return, the space, the next line, and the blanks and separators beyond ASCII.
pub proof fn law_space(c: char, r: bool)
    requires
        call_ensures(space, (c,), r),
    ensures
        r <==> {
            let code = c as int;
            ||| 9 <= code <= 13
            ||| code == 32
            ||| code == 133
            ||| code == 160
            ||| code == 5760
            ||| 8192 <= code <= 8202
            ||| code == 8232
            ||| code == 8233
            ||| code == 8239
            ||| code == 8287
            ||| code == 12288
        },
        r <==> is_space(c),
{
}

/// Trimming a list of characters takes white space away from its two ends, all
/// of it, and nothing else.
pub proof fn law_trim(chars: &[char], out: Vec<char>)
    requires
        call_ensures(trim, (chars,), out),
    ensures
        exists|i: int, j: int|
            {
                &&& 0 <= i <= j <= chars@.len()
                &&& out@ == #[trigger] chars@.subrange(i, j)
                &&& forall|k: int|
                    0 <= k < i || j <= k < chars@.len() ==> is_space(#[trigger] chars@[k])
                &&& i < j ==> !is_space(chars@[i]) && !is_space(chars@[j - 1])
            },
{
    law_trimmed(chars@);
}

/// The first line of a text ends with its first line feed, without a carriage
/// return before it, and the other lines are those of the rest.
pub proof fn law_first_of_lines(
    chars: &[char],
    out: Vec<Vec<char>>,
    rest: &[char],
    others: Vec<Vec<char>>,
    line: Seq<char>,
)
    requires
        !line.contains('\n'),
        chars@ == line + seq!['\n'] + rest@,
        call_ensures(lines, (chars,), out),
        call_ensures(lines, (rest,), others),
    ensures
        out@.len() == 1 + others@.len(),
        line.len() > 0 && line.last() == '\r' ==> out@[0]@ == line.drop_last(),
        line.len() == 0 || line.last() != '\r' ==> out@[0]@ == line,
        forall|i: int| 0 <= i < others@.len() ==> #[trigger] out@[i + 1]@ == others@[i]@,
{
    law_lines(line, rest@);
    assert(rows(out@) == lines_of(chars@));
    assert(rows(others@) == lines_of(rest@));
    assert(rows(out@).len() == out@.len());
    assert(rows(others@).len() == others@.len());
    assert(rows(out@)[0] == out@[0]@);
    assert forall|i: int| 0 <= i < others@.len() implies #[trigger] out@[i + 1]@ == others@[i]@ by {
        assert(rows(out@)[i + 1] == out@[i + 1]@);
        assert(rows(others@)[i] == others@[i]@);
    }
}

/// A text without a line feed is one line, and an empty one has none.
pub proof fn law_only_line(chars: &[char], out: Vec<Vec<char>>)
    requires
        !chars@.contains('\n'),
        call_ensures(lines, (chars,), out),
    ensures
        chars@.len() == 0 ==> out@.len() == 0,
        chars@.len() > 0 ==> out@.len() == 1 && out@[0]@ == chars@,
{
    law_lines(chars@, seq![]);
    assert(rows(out@).len() == out@.len());
    if chars@.len() == 0 {
        assert(chars@ =~= seq![]);
    } else {
        assert(rows(out@)[0] == out@[0]@);
    }
}

/// Rows are joined from the one given to the last, with the separator between
/// each two: the first of them, the separator, and the others joined.
pub proof fn law_join_rows(
    parts: &[Vec<char>],
    from: usize,
    next: usize,
    sep: &str,
    out: String,
    others: String,
)
    requires
        next == from + 1,
        next <= parts@.len(),
        call_ensures(join_rows, (parts, from, sep), out),
        call_ensures(join_rows, (parts, next, sep), others),
    ensures
        next == parts@.len() ==> out@ == parts@[from as int]@ && others@.len() == 0,
        next < parts@.len() ==> out@ == parts@[from as int]@ + sep@ + others@,
{
    let all = rows(parts@);
    let rest = all.skip(next as int);
    let first = parts@[from as int]@;
    assert(all[from as int] == first);
    assert(all.skip(from as int) =~= seq![first] + rest);
    law_joined(rest, first, sep@);
    if rest.len() == 0 {
        assert(rest =~= seq![]);
        assert(seq![first] + rest =~= seq![first]);
    }
}

/// A number is appended in decimal: digits that read back as it, without a
/// zero in front.
pub proof fn law_push_decimal(out: &mut String, n: u64, done: ())
    requires
        call_ensures(push_decimal, (out, n), done),
    ensures
        exists|digits: Seq<char>|
            {
                &&& final(out)@ == #[trigger] (old(out)@ + digits)
                &&& unsigned(digits, u64::MAX as nat) == Some(n as nat)
                &&& digits[0] == '0' ==> digits.len() == 1
                &&& forall|i: int| 0 <= i < digits.len() ==> '0' <= #[trigger] digits[i] <= '9'
            },
{
    let digits = decimal(n as nat);
    law_decimal_round_trip(n as nat, u64::MAX as nat);
    law_decimal(n as nat, 0);
    assert(final(out)@ == old(out)@ + digits);
    if n == 0 {
        assert(digits.len() == 1);
    }
}

/// A number is appended in hexadecimal digits: as many as asked for, the last
/// of them for the remainder by sixteen, and before it those of the quotient.
pub proof fn law_push_hex(
    out: &mut String,
    n: u64,
    width: u8,
    done: (),
    shorter: &mut String,
    less: u8,
    q: u64,
)
    requires
        width == less + 1,
        q == n / 16,
        call_ensures(push_hex, (out, n, width), done),
        call_ensures(push_hex, (shorter, q, less), done),
        old(shorter)@ == old(out)@,
    ensures
        final(out)@ == final(shorter)@.push("0123456789abcdef"@[(n % 16) as int]),
        final(out)@.len() == old(out)@.len() + width,
        less == 0 ==> final(shorter)@ == old(shorter)@,
{
    law_hex_fixed(q as nat, (n % 16) as nat, less as nat);
    assert(16 * q + n % 16 == n);
    lemma_hex_fixed_len(n as nat, width as nat);
    let d = "0123456789abcdef"@[(n % 16) as int];
    assert(old(out)@ + hex_fixed(q as nat, less as nat).push(d) =~= (old(out)@ + hex_fixed(
        q as nat,
        less as nat,
    )).push(d));
}

/// There are as many hexadecimal digits as asked for.
proof fn lemma_hex_fixed_len(n: nat, width: nat)
    ensures
        hex_fixed(n, width).len() == width,
    decreases width,
{
    if width > 0 {
        lemma_hex_fixed_len(n / 16, (width - 1) as nat);
    }
}

/// The limit only decides whether a number is taken: one that is read under
/// one limit is read under any other that it does not exceed, and refused under
/// one that it does.
pub proof fn law_unsigned_limit(s: Seq<char>, max: nat, other: nat)
    requires
        unsigned(s, max) is Some,
    ensures
        unsigned(s, max)->0 <= max,
        unsigned(s, max)->0 <= other ==> unsigned(s, other) == unsigned(s, max),
        unsigned(s, max)->0 > other ==> unsigned(s, other) is None,
{
}

/// `parse_unsigned` reads the number that is written, up to its limit: every
/// number that is not too large is read back, with a plus sign or without, and
/// a text with anything but digits after the sign is refused.
pub proof fn law_parse_unsigned(chars: &[char], max: u64, r: Option<u64>, n: u64)
    requires
        call_ensures(parse_unsigned, (chars, max), r),
    ensures
        chars@ == decimal(n as nat) || chars@ == seq!['+'] + decimal(n as nat) ==> r == (if n
            <= max {
            Some(n)
        } else {
            None
        }),
        (exists|i: int|
            0 <= i < chars@.len() && !('0' <= #[trigger] chars@[i] <= '9') && (i > 0 || chars@[i]
                != '+')) ==> r is None,
        chars@.len() == 0 ==> r is None,
        r matches Some(v) ==> v <= max,
{
    law_unsigned(chars@, 0, max as nat);
    law_decimal(n as nat, 0);
    law_unsigned(decimal(n as nat), 0, n as nat);
    law_unsigned_limit(decimal(n as nat), n as nat, max as nat);
    lemma_decimal(n as nat);
    let plus = seq!['+'] + decimal(n as nat);
    assert(decimal(n as nat)[0] != '+');
    law_unsigned_limit(plus, n as nat, max as nat);
    if chars@.len() == 0 {
        assert(chars@ =~= seq![]);
    }
}

/// Only the ASCII capitals have another lower case, the letter 32 places on;
/// and a text stands at a place exactly where each of its characters does.
pub proof fn law_single_steps(
    c: char,
    lower_case: char,
    hay: &[char],
    needle: &[char],
    i: usize,
    stands: bool,
)
    requires
        call_ensures(to_lower, (c,), lower_case),
        call_ensures(stands_at, (hay, needle, i), stands),
    ensures
        65 <= c as int <= 90 ==> lower_case as int == c as int + 32,
        !(65 <= c as int <= 90) ==> lower_case == c,
        stands <==> i + needle@.len() <= hay@.len() && (forall|k: int|
            0 <= k < needle@.len() ==> hay@[i + k] == #[trigger] needle@[k]),
{
    law_occurs_at(hay@, needle@, i as int);
}

} // verus!
