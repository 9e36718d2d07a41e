//! Wi-Fi Direct (P2P): the data handed to wpa_supplicant.

use vstd::prelude::*;

use crate::config;
use crate::text;

verus! {

// ---------------------------------------------------------------------------
// Hex strings
// ---------------------------------------------------------------------------

/// The value of an ASCII hex digit.
pub open spec fn digit_value(c: char) -> int
    recommends
        config::is_hex(c),
{
    if '0' <= c <= '9' {
        c as int - 48
    } else if 'a' <= c <= 'f' {
        c as int - 87
    } else {
        c as int - 55
    }
}

/// The byte that two hex digits spell.
pub open spec fn pair_value(hi: char, lo: char) -> Option<u8> {
    if config::is_hex(hi) && config::is_hex(lo) {
        Some((16 * digit_value(hi) + digit_value(lo)) as u8)
    } else {
        None
    }
}

/// What is wrong with a hex string, as a value.
#[verifier::ext_equal]
pub enum HexProblem {
    OddLength { hex: Seq<char> },
    InvalidByte { position: nat, pair: Seq<char> },
}

/// The pair of characters at index `p`; a character that takes the room of a
/// pair by itself stands alone.
pub open spec fn pair_at(hex: Seq<char>, p: int) -> Seq<char> {
    if hex[p] <= '\u{7f}' {
        hex.subrange(p, p + 2)
    } else {
        hex.subrange(p, p + 1)
    }
}

/// The bytes that a hex string spells, or what is wrong with it: it takes an
/// odd number of bytes, or it holds a character that is no hex digit, in which
/// case the first pair with such a character is named.
pub open spec fn hex_decoded(hex: Seq<char>) -> Result<Seq<u8>, HexProblem> {
    let i = config::first_non_hex(hex);
    if text::byte_len(hex) % 2 != 0 {
        Err(HexProblem::OddLength { hex })
    } else if i < hex.len() {
        let p = i - i % 2;
        Err(HexProblem::InvalidByte { position: p as nat, pair: pair_at(hex, p) })
    } else {
        Ok(Seq::new(hex.len() / 2, |k: int| pair_value(hex[2 * k], hex[2 * k + 1])->0))
    }
}

/// ASCII characters take one byte each.
proof fn lemma_ascii_len(s: Seq<char>)
    requires
        vstd::utf8::is_ascii_chars(s),
    ensures
        text::byte_len(s) == s.len(),
{
    vstd::utf8::is_ascii_chars_encode_utf8(s);
}

/// A string of hex digits takes one byte for each of them.
proof fn lemma_hex_len(s: Seq<char>)
    requires
        forall|i: int| 0 <= i < s.len() ==> config::is_hex(#[trigger] s[i]),
    ensures
        text::byte_len(s) == s.len(),
        config::first_non_hex(s) == s.len(),
{
    config::lemma_first_non_hex(s);
    assert forall|i: int| 0 <= i < s.len() implies '\0' <= #[trigger] s[i] <= '\u{7f}' by {
        assert(config::is_hex(s[i]));
    }
    lemma_ascii_len(s);
}

/// No character comes before the first one.
proof fn lemma_least_char(c: char)
    ensures
        '\0' <= c,
{
}

/// A pair that begins with an ASCII character has a second one.
proof fn lemma_pair_is_there(hex: Seq<char>)
    requires
        text::byte_len(hex) % 2 == 0,
        config::first_non_hex(hex) < hex.len(),
    ensures
        ({
            let i = config::first_non_hex(hex);
            let p = i - i % 2;
            hex[p] <= '\u{7f}' ==> p + 2 <= hex.len()
        }),
{
    config::lemma_first_non_hex(hex);
    let i = config::first_non_hex(hex);
    let p = i - i % 2;
    if hex[p] <= '\u{7f}' && p + 1 == hex.len() {
        assert forall|j: int| 0 <= j < hex.len() implies '\0' <= #[trigger] hex[j]
            <= '\u{7f}' by {
            if j < p {
                assert(config::is_hex(hex[j]));
            } else {
                lemma_least_char(hex[j]);
            }
        }
        lemma_ascii_len(hex);
    }
}

/// Why a hex string cannot be decoded.
#[derive(Debug)]
pub enum HexError {
    /// The string takes an odd number of bytes.
    OddLength { hex: String },
    /// The pair at `position` spells no byte.
    InvalidByte { position: usize, pair: String },
}

impl View for HexError {
    type V = HexProblem;

    open spec fn view(&self) -> HexProblem {
        match self {
            HexError::OddLength { hex } => HexProblem::OddLength { hex: hex@ },
            HexError::InvalidByte { position, pair } => HexProblem::InvalidByte {
                position: *position as nat,
                pair: pair@,
            },
        }
    }
}

impl HexProblem {
    /// The message that describes the problem.
    pub open spec fn message(self) -> Seq<char> {
        match self {
            HexProblem::OddLength { hex } => "hex string has odd length: '"@ + hex + "'"@,
            HexProblem::InvalidByte { position, pair } => "invalid hex byte at position "@
                + text::decimal(position) + ": '"@ + pair + "'"@,
        }
    }
}

impl HexError {
    /// The message that describes the error.
    pub fn message(&self) -> (out: String)
        ensures
            out@ == self@.message(),
    {
        match self {
            HexError::OddLength { hex } => {
                let mut out = "hex string has odd length: '".to_owned();
                out.append(hex.as_str());
                out.append("'");
                out
            },
            HexError::InvalidByte { position, pair } => {
                let mut out = "invalid hex byte at position ".to_owned();
                text::push_decimal(&mut out, *position as u64);
                out.append(": '");
                out.append(pair.as_str());
                out.append("'");
                out
            },
        }
    }
}

/// The value of a hex digit.
fn digit_of(c: char) -> (r: Option<u8>)
    ensures
        match r {
            Some(d) => config::is_hex(c) && d == digit_value(c) && d < 16,
            None => !config::is_hex(c),
        },
{
    if '0' <= c && c <= '9' {
        Some(c as u8 - 48)
    } else if 'a' <= c && c <= 'f' {
        Some(c as u8 - 87)
    } else if 'A' <= c && c <= 'F' {
        Some(c as u8 - 55)
    } else {
        None
    }
}

/// The byte that two hex digits spell.
fn pair_of(hi: char, lo: char) -> (r: Option<u8>)
    ensures
        r == pair_value(hi, lo),
{
    match (digit_of(hi), digit_of(lo)) {
        (Some(h), Some(l)) => Some(16 * h + l),
        _ => None,
    }
}

/// Decode a hex string into bytes, in either case of letters.
pub fn hex_to_bytes(hex: &str) -> (r: Result<Vec<u8>, HexError>)
    ensures
        match r {
            Ok(v) => hex_decoded(hex@) == Ok::<Seq<u8>, HexProblem>(v@),
            Err(e) => hex_decoded(hex@) == Err::<Seq<u8>, HexProblem>(e@),
        },
{
    if hex.as_bytes().len() % 2 != 0 {
        return Err(HexError::OddLength { hex: hex.to_owned() });
    }
    let chars = text::chars_of(hex);
    let n = chars.len();
    let mut out: Vec<u8> = Vec::new();
    let mut p: usize = 0;
    proof {
        config::lemma_first_non_hex(hex@);
    }
    while p < n
        invariant
            chars@ == hex@,
            n == chars@.len(),
            text::byte_len(hex@) % 2 == 0,
            p == 2 * out@.len(),
            p <= n,
            p <= config::first_non_hex(hex@) <= n,
            forall|j: int|
                0 <= j < config::first_non_hex(hex@) ==> config::is_hex(#[trigger] hex@[j]),
            config::first_non_hex(hex@) < n ==> !config::is_hex(
                hex@[config::first_non_hex(hex@)],
            ),
            forall|k: int|
                0 <= k < out@.len() ==> #[trigger] out@[k] == pair_value(
                    hex@[2 * k],
                    hex@[2 * k + 1],
                )->0,
        decreases n - p,
    {
        proof {
            if config::first_non_hex(hex@) < n {
                lemma_pair_is_there(hex@);
            } else {
                lemma_hex_len(hex@);
            }
        }
        let first = chars[p];
        if first > '\u{7f}' || p + 1 >= n {
            assert(config::first_non_hex(hex@) == p) by {
                if config::first_non_hex(hex@) > p {
                    assert(config::is_hex(hex@[p as int]));
                }
            }
            let pair = text::text_of(text::chars_between(chars.as_slice(), p, p + 1).as_slice());
            return Err(HexError::InvalidByte { position: p, pair });
        }
        match pair_of(first, chars[p + 1]) {
            Some(v) => {
                assert(config::first_non_hex(hex@) >= p + 2);
                out.push(v);
                p = p + 2;
            },
            None => {
                assert(config::first_non_hex(hex@) < p + 2) by {
                    if config::first_non_hex(hex@) >= p + 2 {
                        assert(config::is_hex(hex@[p as int]));
                        assert(config::is_hex(hex@[p + 1]));
                    }
                }
                let pair = text::text_of(
                    text::chars_between(chars.as_slice(), p, p + 2).as_slice(),
                );
                return Err(HexError::InvalidByte { position: p, pair });
            },
        }
    }
    assert(out@ =~= Seq::new(hex@.len() / 2, |k: int| pair_value(hex@[2 * k], hex@[2 * k + 1])->0));
    Ok(out)
}

/// The hex string of `bytes`, two lower-case digits each.
pub open spec fn hex_text(bytes: Seq<u8>) -> Seq<char>
    decreases bytes.len(),
{
    if bytes.len() == 0 {
        seq![]
    } else {
        hex_text(bytes.drop_last()) + text::hex_fixed(bytes.last() as nat, 2)
    }
}

// ---------------------------------------------------------------------------
// WFD subelements
// ---------------------------------------------------------------------------

/// Why the bytes of a WFD information element hold no subelement.
#[derive(Debug)]
pub enum WfdError {
    /// There is no room for the subelement header.
    TooShort { len: usize },
    /// The header declares more payload than there is.
    LengthMismatch { declared: usize, available: usize },
}

/// The message that describes an error.
pub open spec fn wfd_message(e: WfdError) -> Seq<char> {
    match e {
        WfdError::TooShort { len } => "WFD IE too short to parse subelement header ("@
            + text::decimal(len as nat) + " bytes)"@,
        WfdError::LengthMismatch { declared, available } =>
            "WFD IE length mismatch: header says "@ + text::decimal(declared as nat)
            + " bytes but only "@ + text::decimal(available as nat) + " available"@,
    }
}

impl WfdError {
    /// The message that describes the error.
    pub fn message(&self) -> (out: String)
        ensures
            out@ == wfd_message(*self),
    {
        match self {
            WfdError::TooShort { len } => {
                let mut out = "WFD IE too short to parse subelement header (".to_owned();
                text::push_decimal(&mut out, *len as u64);
                out.append(" bytes)");
                out
            },
            WfdError::LengthMismatch { declared, available } => {
                let mut out = "WFD IE length mismatch: header says ".to_owned();
                text::push_decimal(&mut out, *declared as u64);
                out.append(" bytes but only ");
                text::push_decimal(&mut out, *available as u64);
                out.append(" available");
                out
            },
        }
    }
}

/// Parse the first WFD subelement, which is an ID byte, a length byte and as
/// many payload bytes, into its ID and its payload as a hex string.
pub fn parse_wfd_subelement(ie_bytes: &[u8]) -> (r: Result<(u8, String), WfdError>)
    ensures
        match r {
            Ok((id, payload)) => {
                &&& ie_bytes@.len() >= 2 + ie_bytes@[1]
                &&& ie_bytes@.len() >= 2
                &&& id == ie_bytes@[0]
                &&& payload@ == hex_text(ie_bytes@.subrange(2, 2 + ie_bytes@[1]))
            },
            Err(WfdError::TooShort { len }) => len == ie_bytes@.len() && len < 2,
            Err(WfdError::LengthMismatch { declared, available }) => {
                &&& ie_bytes@.len() >= 2
                &&& declared == ie_bytes@[1]
                &&& available == ie_bytes@.len() - 2
                &&& available < declared
            },
        },
{
    if ie_bytes.len() < 2 {
        return Err(WfdError::TooShort { len: ie_bytes.len() });
    }
    let id = ie_bytes[0];
    let declared = ie_bytes[1] as usize;
    let available = ie_bytes.len() - 2;
    if available < declared {
        return Err(WfdError::LengthMismatch { declared, available });
    }
    let mut payload = String::new();
    let ghost bytes = ie_bytes@.subrange(2, 2 + declared);
    assert(payload@ =~= hex_text(bytes.take(0)));
    for i in 0..declared
        invariant
            declared <= 255,
            2 + declared <= ie_bytes@.len(),
            bytes == ie_bytes@.subrange(2, 2 + declared),
            payload@ == hex_text(bytes.take(i as int)),
    {
        assert(bytes.take(i + 1).drop_last() == bytes.take(i as int));
        assert(bytes.take(i + 1).last() == ie_bytes@[2 + i]);
        text::push_hex(&mut payload, ie_bytes[2 + i] as u64, 2);
    }
    assert(bytes.take(declared as int) == bytes);
    Ok((id, payload))
}

// ---------------------------------------------------------------------------
// WPS primary device type
// ---------------------------------------------------------------------------

/// Why a WPS device type cannot be encoded, as a value.
#[verifier::ext_equal]
pub enum WpsProblem {
    Format { dev_type: Seq<char> },
    Category { category: Seq<char> },
    Oui { oui: Seq<char>, cause: HexProblem },
    OuiLength { len: nat },
    Subcategory { subcategory: Seq<char> },
}

/// The three parts of a WPS device type, around its first two hyphens.
pub open spec fn dev_type_parts(s: Seq<char>) -> Option<(Seq<char>, Seq<char>, Seq<char>)> {
    let a = text::find_char(s, '-');
    let rest = s.skip(a + 1);
    let b = text::find_char(rest, '-');
    if a < s.len() && b < rest.len() {
        Some((s.take(a), rest.take(b), rest.skip(b + 1)))
    } else {
        None
    }
}

/// A number of two bytes, the high one first.
pub open spec fn big_endian(n: nat) -> Seq<u8> {
    seq![(n / 256) as u8, (n % 256) as u8]
}

/// The eight bytes of a WPS device type `{category}-{OUI}-{subcategory}`, or
/// why there are none.
pub open spec fn dev_type_encoded(s: Seq<char>) -> Result<Seq<u8>, WpsProblem> {
    match dev_type_parts(s) {
        None => Err(WpsProblem::Format { dev_type: s }),
        Some((cat, oui, sub)) => match text::unsigned(cat, u16::MAX as nat) {
            None => Err(WpsProblem::Category { category: cat }),
            Some(c) => match hex_decoded(oui) {
                Err(cause) => Err(WpsProblem::Oui { oui, cause }),
                Ok(o) => if o.len() != 4 {
                    Err(WpsProblem::OuiLength { len: o.len() })
                } else {
                    match text::unsigned(sub, u16::MAX as nat) {
                        None => Err(WpsProblem::Subcategory { subcategory: sub }),
                        Some(n) => Ok(big_endian(c) + o + big_endian(n)),
                    }
                },
            },
        },
    }
}

/// Why a WPS device type cannot be encoded.
#[derive(Debug)]
pub enum WpsError {
    /// The string has fewer than three parts.
    Format { dev_type: String },
    /// The category is no 16-bit number.
    Category { category: String },
    /// The OUI is no hex string.
    Oui { oui: String, cause: HexError },
    /// The OUI does not take four bytes.
    OuiLength { len: usize },
    /// The subcategory is no 16-bit number.
    Subcategory { subcategory: String },
}

impl View for WpsError {
    type V = WpsProblem;

    open spec fn view(&self) -> WpsProblem {
        match self {
            WpsError::Format { dev_type } => WpsProblem::Format { dev_type: dev_type@ },
            WpsError::Category { category } => WpsProblem::Category { category: category@ },
            WpsError::Oui { oui, cause } => WpsProblem::Oui { oui: oui@, cause: cause@ },
            WpsError::OuiLength { len } => WpsProblem::OuiLength { len: *len as nat },
            WpsError::Subcategory { subcategory } => WpsProblem::Subcategory {
                subcategory: subcategory@,
            },
        }
    }
}

impl WpsProblem {
    /// The message that describes the problem.
    pub open spec fn message(self) -> Seq<char> {
        match self {
            WpsProblem::Format { dev_type } => "invalid WPS device type '"@ + dev_type
                + "': expected format N-XXXXXXXX-N"@,
            WpsProblem::Category { category } => "invalid category '"@ + category
                + "' in WPS dev type"@,
            WpsProblem::Oui { oui, cause } => "invalid OUI '"@ + oui + "' in WPS dev type"@,
            WpsProblem::OuiLength { len } => "WPS OUI must be exactly 4 bytes, got "@
                + text::decimal(len),
            WpsProblem::Subcategory { subcategory } => "invalid subcategory '"@ + subcategory
                + "' in WPS dev type"@,
        }
    }
}

/// `value` between `before` and `after`.
fn quoted(before: &str, value: &str, after: &str) -> (out: String)
    ensures
        out@ == before@ + value@ + after@,
{
    let mut out = before.to_owned();
    out.append(value);
    out.append(after);
    out
}

impl WpsError {
    /// The message that describes the error.
    pub fn message(&self) -> (out: String)
        ensures
            out@ == self@.message(),
    {
        match self {
            WpsError::Format { dev_type } => quoted(
                "invalid WPS device type '",
                dev_type.as_str(),
                "': expected format N-XXXXXXXX-N",
            ),
            WpsError::Category { category } => quoted(
                "invalid category '",
                category.as_str(),
                "' in WPS dev type",
            ),
            WpsError::Oui { oui, cause } => quoted(
                "invalid OUI '",
                oui.as_str(),
                "' in WPS dev type",
            ),
            WpsError::OuiLength { len } => {
                let mut out = "WPS OUI must be exactly 4 bytes, got ".to_owned();
                text::push_decimal(&mut out, *len as u64);
                out
            },
            WpsError::Subcategory { subcategory } => quoted(
                "invalid subcategory '",
                subcategory.as_str(),
                "' in WPS dev type",
            ),
        }
    }
}

/// Cut a device type into its three parts.
fn split_dev_type(dev_type: &str) -> (r: Option<(Vec<char>, Vec<char>, Vec<char>)>)
    ensures
        match r {
            Some((a, b, c)) => dev_type_parts(dev_type@) == Some((a@, b@, c@)),
            None => dev_type_parts(dev_type@) is None,
        },
{
    let chars = text::chars_of(dev_type);
    let s = chars.as_slice();
    let a = text::find_char_from(s, 0, '-');
    assert(s@.skip(0) == s@);
    if a == s.len() {
        return None;
    }
    let b = text::find_char_from(s, a + 1, '-');
    proof {
        text::lemma_find_char(s@.skip(a + 1), '-');
    }
    if b == s.len() {
        return None;
    }
    let cat = text::chars_between(s, 0, a);
    let oui = text::chars_between(s, a + 1, b);
    let sub = text::chars_between(s, b + 1, s.len());
    proof {
        let rest = s@.skip(a + 1);
        assert(cat@ == s@.take(a as int));
        assert(oui@ == rest.take(b - (a + 1)));
        assert(sub@ == rest.skip(b - (a + 1) + 1));
    }
    Some((cat, oui, sub))
}

/// Encode a WPS primary device type into its eight bytes: the category in two,
/// the OUI and type in four, the subcategory in two.
pub fn wps_dev_type_to_bytes(dev_type: &str) -> (r: Result<[u8; 8], WpsError>)
    ensures
        match r {
            Ok(v) => dev_type_encoded(dev_type@) == Ok::<Seq<u8>, WpsProblem>(v@),
            Err(e) => dev_type_encoded(dev_type@) == Err::<Seq<u8>, WpsProblem>(e@),
        },
{
    let (cat, oui, sub) = match split_dev_type(dev_type) {
        Some(parts) => parts,
        None => {
            return Err(WpsError::Format { dev_type: dev_type.to_owned() });
        },
    };
    let category = match text::parse_unsigned(cat.as_slice(), u16::MAX as u64) {
        Some(n) => n,
        None => {
            return Err(WpsError::Category { category: text::text_of(cat.as_slice()) });
        },
    };
    let oui_text = text::text_of(oui.as_slice());
    let o = match hex_to_bytes(oui_text.as_str()) {
        Ok(v) => v,
        Err(cause) => {
            return Err(WpsError::Oui { oui: oui_text, cause });
        },
    };
    if o.len() != 4 {
        return Err(WpsError::OuiLength { len: o.len() });
    }
    let subcategory = match text::parse_unsigned(sub.as_slice(), u16::MAX as u64) {
        Some(n) => n,
        None => {
            return Err(WpsError::Subcategory { subcategory: text::text_of(sub.as_slice()) });
        },
    };
    let out: [u8; 8] = [
        (category / 256) as u8,
        (category % 256) as u8,
        o[0],
        o[1],
        o[2],
        o[3],
        (subcategory / 256) as u8,
        (subcategory % 256) as u8,
    ];
    assert(out@ =~= big_endian(category as nat) + o@ + big_endian(subcategory as nat));
    Ok(out)
}

// ---------------------------------------------------------------------------
// Laws
// ---------------------------------------------------------------------------

/// A hex string is decoded exactly where it is an even number of hex digits,
/// and then into one byte for each two of them.
pub proof fn law_hex_strings_decode(hex: Seq<char>)
    ensures
        hex_decoded(hex) is Ok <==> hex.len() % 2 == 0 && (forall|i: int|
            0 <= i < hex.len() ==> config::is_hex(#[trigger] hex[i])),
        hex_decoded(hex) matches Ok(v) ==> {
            &&& 2 * v.len() == hex.len()
            &&& forall|k: int|
                0 <= k < v.len() ==> #[trigger] v[k] as int == 16 * digit_value(hex[2 * k])
                    + digit_value(hex[2 * k + 1])
        },
{
    config::lemma_first_non_hex(hex);
    if forall|i: int| 0 <= i < hex.len() ==> config::is_hex(#[trigger] hex[i]) {
        lemma_hex_len(hex);
    }
    if let Ok(v) = hex_decoded(hex) {
        lemma_hex_len(hex);
        assert forall|k: int| 0 <= k < v.len() implies #[trigger] v[k] as int == 16 * digit_value(
            hex[2 * k],
        ) + digit_value(hex[2 * k + 1]) by {
            assert(config::is_hex(hex[2 * k]));
            assert(config::is_hex(hex[2 * k + 1]));
        }
    }
}

/// The characters of the hex string of `bytes`.
proof fn lemma_hex_text(bytes: Seq<u8>)
    ensures
        hex_text(bytes).len() == 2 * bytes.len(),
        forall|k: int|
            0 <= k < bytes.len() ==> {
                &&& #[trigger] hex_text(bytes)[2 * k] == text::hex_digit(bytes[k] as int / 16)
                &&& hex_text(bytes)[2 * k + 1] == text::hex_digit(bytes[k] as int % 16)
            },
    decreases bytes.len(),
{
    if bytes.len() > 0 {
        let init = bytes.drop_last();
        lemma_hex_text(init);
        let n = bytes.last() as nat;
        reveal_with_fuel(text::hex_fixed, 3);
        assert(text::hex_fixed(n, 2) =~= seq![
            text::hex_digit((n / 16) as int % 16),
            text::hex_digit((n % 16) as int),
        ]);
        assert forall|k: int| 0 <= k < bytes.len() implies {
            &&& #[trigger] hex_text(bytes)[2 * k] == text::hex_digit(bytes[k] as int / 16)
            &&& hex_text(bytes)[2 * k + 1] == text::hex_digit(bytes[k] as int % 16)
        } by {
            if k < init.len() {
                assert(init[k] == bytes[k]);
                assert(hex_text(init)[2 * k] == text::hex_digit(init[k] as int / 16));
            }
        }
    }
}

/// Decoding the hex string of any bytes gives these bytes back.
pub proof fn law_hex_round_trip(bytes: Seq<u8>)
    ensures
        hex_decoded(hex_text(bytes)) == Ok::<Seq<u8>, HexProblem>(bytes),
{
    let s = hex_text(bytes);
    lemma_hex_text(bytes);
    assert forall|i: int| 0 <= i < s.len() implies config::is_hex(#[trigger] s[i]) by {
        let k = i / 2;
        assert(s[2 * k] == text::hex_digit(bytes[k] as int / 16));
        assert(i == 2 * k || i == 2 * k + 1);
    }
    lemma_hex_len(s);
    assert forall|k: int| 0 <= k < bytes.len() implies #[trigger] pair_value(s[2 * k], s[2 * k + 1])
        == Some(bytes[k]) by {
        assert(s[2 * k] == text::hex_digit(bytes[k] as int / 16));
    }
    assert(Seq::new(s.len() / 2, |k: int| pair_value(s[2 * k], s[2 * k + 1])->0) =~= bytes);
}

/// A hex field that passes validation can be decoded, into at least one byte.
pub proof fn law_valid_hex_field_decodes(field: Seq<char>, value: Seq<char>)
    requires
        config::hex_field_problem(field, value) is None,
    ensures
        hex_decoded(value) matches Ok(v) && 2 * v.len() == value.len() && v.len() > 0,
{
    config::lemma_first_non_hex(value);
    law_hex_strings_decode(value);
}

/// The WFD information elements of a valid configuration can be decoded.
pub proof fn law_valid_config_has_wfd_ies(cfg: config::Config)
    requires
        cfg.problem() is None,
    ensures
        hex_decoded(cfg.p2p.wfd_subelems@) is Ok,
{
    law_valid_hex_field_decodes("p2p.wfd_subelems"@, cfg.p2p.wfd_subelems@);
}

/// Hex strings are decoded whatever the case of their letters.
pub proof fn law_hex_ignores_case(hex: Seq<char>)
    ensures
        match hex_decoded(hex) {
            Ok(v) => hex_decoded(text::lowered(hex)) == Ok::<Seq<u8>, HexProblem>(v),
            Err(_) => hex_decoded(text::lowered(hex)) is Err,
        },
{
    let low = text::lowered(hex);
    assert forall|i: int| 0 <= i < hex.len() implies config::is_hex(hex[i]) == config::is_hex(
        #[trigger] low[i],
    ) && (config::is_hex(hex[i]) ==> digit_value(hex[i]) == digit_value(low[i])) by {
        assert(low[i] == text::lower(hex[i]));
    }
    law_hex_strings_decode(hex);
    law_hex_strings_decode(low);
    if let Ok(v) = hex_decoded(hex) {
        assert forall|i: int| 0 <= i < low.len() implies config::is_hex(#[trigger] low[i]) by {
            assert(config::is_hex(hex[i]));
        }
        assert(hex_decoded(low)->Ok_0 =~= v);
    } else if hex_decoded(low) is Ok {
        assert forall|i: int| 0 <= i < hex.len() implies config::is_hex(#[trigger] hex[i]) by {
            assert(config::is_hex(low[i]));
        }
    }
}

/// The payload that a subelement is parsed into decodes to its payload bytes.
pub proof fn law_subelement_payload_decodes(ie_bytes: Seq<u8>)
    requires
        ie_bytes.len() >= 2,
        ie_bytes.len() >= 2 + ie_bytes[1],
    ensures
        hex_decoded(hex_text(ie_bytes.subrange(2, 2 + ie_bytes[1]))) == Ok::<Seq<u8>, HexProblem>(
            ie_bytes.subrange(2, 2 + ie_bytes[1]),
        ),
{
    law_hex_round_trip(ie_bytes.subrange(2, 2 + ie_bytes[1]));
}

/// An encoded device type takes eight bytes: the category and the subcategory,
/// high byte first, around the OUI.
pub proof fn law_dev_type_layout(s: Seq<char>)
    ensures
        dev_type_encoded(s) matches Ok(v) ==> {
            &&& v.len() == 8
            &&& dev_type_parts(s) matches Some((cat, oui, sub)) && {
                &&& text::unsigned(cat, u16::MAX as nat) == Some((v[0] * 256 + v[1]) as nat)
                &&& hex_decoded(oui) == Ok::<Seq<u8>, HexProblem>(v.subrange(2, 6))
                &&& text::unsigned(sub, u16::MAX as nat) == Some((v[6] * 256 + v[7]) as nat)
            }
        },
{
    if let Ok(v) = dev_type_encoded(s) {
        let (cat, oui, sub) = dev_type_parts(s)->0;
        let c = text::unsigned(cat, u16::MAX as nat)->0;
        let n = text::unsigned(sub, u16::MAX as nat)->0;
        let o = hex_decoded(oui)->Ok_0;
        assert(v == big_endian(c) + o + big_endian(n));
        assert(v.subrange(2, 6) =~= o);
        assert(c <= 65535 && n <= 65535);
    }
}

/// A string of an odd number of bytes is refused as it stands; any other that
/// is no hex string is refused at its first pair with a character that is no
/// hex digit, and that pair is named.
pub proof fn law_hex_errors(hex: &str, r: Result<Vec<u8>, HexError>)
    requires
        call_ensures(hex_to_bytes, (hex,), r),
    ensures
        r matches Err(HexError::OddLength { hex: whole }) ==> whole@ == hex@,
        (r is Err && r->Err_0 is OddLength) <==> vstd::utf8::encode_utf8(hex@).len() % 2 == 1,
        r matches Err(HexError::InvalidByte { position, pair }) ==> {
            &&& position % 2 == 0
            &&& position < hex@.len()
            &&& forall|j: int| 0 <= j < position ==> config::is_hex(#[trigger] hex@[j])
            &&& text::occurs_at(hex@, pair@, position as int)
            &&& exists|j: int| 0 <= j < pair@.len() && !config::is_hex(#[trigger] pair@[j])
            &&& pair@.len() == if hex@[position as int] <= '\u{7f}' {
                2nat
            } else {
                1
            }
        },
{
    config::lemma_first_non_hex(hex@);
    if let Err(HexError::InvalidByte { position, pair }) = r {
        let i = config::first_non_hex(hex@);
        let p = i - i % 2;
        lemma_pair_is_there(hex@);
        assert(hex@.subrange(p, p + pair@.len()) =~= pair@);
        if i > p {
            assert(config::is_hex(hex@[p]));
        }
        assert(pair@[i - p] == hex@[i]);
    }
}

/// What `hex_to_bytes` gives: the bytes that the digits spell, two for each,
/// exactly where there is an even number of digits and nothing else.
pub proof fn law_hex_to_bytes(hex: &str, r: Result<Vec<u8>, HexError>)
    requires
        call_ensures(hex_to_bytes, (hex,), r),
    ensures
        r is Ok <==> hex@.len() % 2 == 0 && (forall|i: int|
            0 <= i < hex@.len() ==> {
                let c = #[trigger] hex@[i];
                '0' <= c <= '9' || 'a' <= c <= 'f' || 'A' <= c <= 'F'
            }),
        r matches Ok(v) ==> {
            &&& 2 * v@.len() == hex@.len()
            &&& forall|k: int|
                0 <= k < v@.len() ==> #[trigger] v@[k] as int == 16 * digit_value(hex@[2 * k])
                    + digit_value(hex@[2 * k + 1])
        },
{
    law_hex_strings_decode(hex@);
    if forall|i: int|
        0 <= i < hex@.len() ==> {
            let c = #[trigger] hex@[i];
            '0' <= c <= '9' || 'a' <= c <= 'f' || 'A' <= c <= 'F'
        } {
        assert forall|i: int| 0 <= i < hex@.len() implies config::is_hex(#[trigger] hex@[i]) by {}
    }
    if r is Ok {
        assert forall|i: int| 0 <= i < hex@.len() implies {
            let c = #[trigger] hex@[i];
            '0' <= c <= '9' || 'a' <= c <= 'f' || 'A' <= c <= 'F'
        } by {
            assert(config::is_hex(hex@[i]));
        }
    }
}

/// Each hex digit has its value, in either case.
pub proof fn law_digit_value(d: int)
    requires
        0 <= d < 16,
    ensures
        digit_value("0123456789abcdef"@[d]) == d,
        digit_value("0123456789ABCDEF"@[d]) == d,
{
    reveal_strlit("0123456789abcdef");
    reveal_strlit("0123456789ABCDEF");
}

/// Bytes are spelt one after the other, with two lower-case digits each.
pub proof fn law_hex_text(bytes: Seq<u8>, b: u8)
    ensures
        hex_text(seq![]) == Seq::<char>::empty(),
        hex_text(bytes.push(b)) == hex_text(bytes) + seq![
            "0123456789abcdef"@[b as int / 16],
            "0123456789abcdef"@[b as int % 16],
        ],
{
    reveal_strlit("0123456789abcdef");
    assert(bytes.push(b).drop_last() =~= bytes);
    let n = b as nat;
    reveal_with_fuel(text::hex_fixed, 3);
    assert(text::hex_fixed(n, 2) =~= seq![
        "0123456789abcdef"@[b as int / 16],
        "0123456789abcdef"@[b as int % 16],
    ]);
}

/// A subelement is a number, a length and as many bytes of payload; it is
/// parsed exactly where they are all there, whatever follows.
pub proof fn law_parse_wfd_subelement(
    ie_bytes: &[u8],
    r: Result<(u8, String), WfdError>,
    payload: Seq<u8>,
    more: Seq<u8>,
    id: u8,
)
    requires
        call_ensures(parse_wfd_subelement, (ie_bytes,), r),
    ensures
        payload.len() < 256 && ie_bytes@ == seq![id, payload.len() as u8] + payload + more
            ==> r is Ok && r->Ok_0.0 == id && hex_decoded(r->Ok_0.1@) == Ok::<Seq<u8>, HexProblem>(
            payload,
        ),
        (r is Err && r->Err_0 is TooShort) <==> ie_bytes@.len() < 2,
        r is Ok <==> ie_bytes@.len() >= 2 && ie_bytes@.len() - 2 >= ie_bytes@[1],
        r matches Err(WfdError::TooShort { len }) ==> len == ie_bytes@.len(),
        r matches Err(WfdError::LengthMismatch { declared, available }) ==> declared
            == ie_bytes@[1] && available == ie_bytes@.len() - 2,
{
    if payload.len() < 256 && ie_bytes@ == seq![id, payload.len() as u8] + payload + more {
        let n = payload.len() as u8;
        assert(n as nat == payload.len());
        assert(ie_bytes@[0] == id && ie_bytes@[1] == n);
        assert(ie_bytes@.subrange(2, 2 + n) =~= payload);
        law_hex_round_trip(payload);
    }
}

/// A device type of three parts is encoded exactly where the category and the
/// subcategory are numbers of sixteen bits and the OUI is a hex string of four
/// bytes; the first part that is not is the one complained of.
pub proof fn law_dev_type(cat: Seq<char>, oui: Seq<char>, sub: Seq<char>)
    requires
        !cat.contains('-'),
        !oui.contains('-'),
    ensures
        ({
            let r = dev_type_encoded(cat + "-"@ + oui + "-"@ + sub);
            let c = text::unsigned(cat, 65_535);
            let o = hex_decoded(oui);
            let n = text::unsigned(sub, 65_535);
            &&& r is Ok <==> c is Some && (o is Ok && o->Ok_0.len() == 4) && n is Some
            &&& r matches Ok(v) ==> v.len() == 8 && v[0] * 256 + v[1] == c->0 && v.subrange(2, 6)
                == o->Ok_0 && v[6] * 256 + v[7] == n->0
            &&& c is None ==> r == Err::<Seq<u8>, WpsProblem>(
                WpsProblem::Category { category: cat },
            )
            &&& c is Some && o is Err ==> r == Err::<Seq<u8>, WpsProblem>(
                WpsProblem::Oui { oui, cause: o->Err_0 },
            )
            &&& c is Some && (o is Ok && o->Ok_0.len() != 4) ==> r == Err::<Seq<u8>, WpsProblem>(
                WpsProblem::OuiLength { len: o->Ok_0.len() },
            )
            &&& c is Some && (o is Ok && o->Ok_0.len() == 4) && n is None ==> r == Err::<
                Seq<u8>,
                WpsProblem,
            >(WpsProblem::Subcategory { subcategory: sub })
        }),
{
    reveal_strlit("-");
    let hyphen = "-"@;
    let s = cat + hyphen + oui + hyphen + sub;
    let a = cat.len() as int;
    assert forall|j: int| 0 <= j < a implies s[j] != '-' by {
        assert(s[j] == cat[j]);
    }
    assert(s[a] == '-');
    text::lemma_find_char_is(s, '-', a);
    let rest = s.skip(a + 1);
    assert(rest =~= oui + hyphen + sub);
    let b = oui.len() as int;
    assert forall|j: int| 0 <= j < b implies rest[j] != '-' by {
        assert(rest[j] == oui[j]);
    }
    assert(rest[b] == '-');
    text::lemma_find_char_is(rest, '-', b);
    assert(s.take(a) =~= cat);
    assert(rest.take(b) =~= oui);
    assert(rest.skip(b + 1) =~= sub);
    law_dev_type_layout(s);
}

/// A device type of fewer than three parts is refused as it stands.
pub proof fn law_dev_type_needs_three_parts(cat: Seq<char>, oui: Seq<char>)
    requires
        !cat.contains('-'),
        !oui.contains('-'),
    ensures
        dev_type_encoded(cat) == Err::<Seq<u8>, WpsProblem>(WpsProblem::Format { dev_type: cat }),
        dev_type_encoded(cat + "-"@ + oui) == Err::<Seq<u8>, WpsProblem>(
            WpsProblem::Format { dev_type: cat + "-"@ + oui },
        ),
{
    reveal_strlit("-");
    let s = cat + "-"@ + oui;
    let a = cat.len() as int;
    assert forall|j: int| 0 <= j < a implies cat[j] != '-' by {}
    text::lemma_find_char_is(cat, '-', a);
    assert forall|j: int| 0 <= j < a implies s[j] != '-' by {
        assert(s[j] == cat[j]);
    }
    assert(s[a] == '-');
    text::lemma_find_char_is(s, '-', a);
    let rest = s.skip(a + 1);
    assert(rest =~= oui);
    assert forall|j: int| 0 <= j < oui.len() implies oui[j] != '-' by {}
    text::lemma_find_char_is(rest, '-', oui.len() as int);
}

/// What `wps_dev_type_to_bytes` gives for a device type of three parts.
pub proof fn law_wps_dev_type_to_bytes(
    dev_type: &str,
    r: Result<[u8; 8], WpsError>,
    cat: Seq<char>,
    oui: Seq<char>,
    sub: Seq<char>,
)
    requires
        call_ensures(wps_dev_type_to_bytes, (dev_type,), r),
        dev_type@ == cat + "-"@ + oui + "-"@ + sub,
        !cat.contains('-'),
        !oui.contains('-'),
    ensures
        r is Ok <==> text::unsigned(cat, 65_535) is Some && (hex_decoded(oui) matches Ok(o)
            && o.len() == 4) && text::unsigned(sub, 65_535) is Some,
        r matches Ok(v) ==> v@[0] * 256 + v@[1] == text::unsigned(cat, 65_535)->0 && v@.subrange(
            2,
            6,
        ) == hex_decoded(oui)->Ok_0 && v@[6] * 256 + v@[7] == text::unsigned(sub, 65_535)->0,
{
    law_dev_type(cat, oui, sub);
}

/// The messages about hex strings and subelements name what was found, with
/// numbers that read back.
pub proof fn law_decoding_messages(h: &HexError, hex_out: String, w: &WfdError, wfd_out: String)
    requires
        call_ensures(HexError::message, (h,), hex_out),
        call_ensures(WfdError::message, (w,), wfd_out),
    ensures
        h matches HexError::OddLength { hex } ==> hex_out@ == "hex string has odd length: '"@
            + hex@ + "'"@,
        h matches HexError::InvalidByte { position, pair } ==> exists|n: Seq<char>|
            text::unsigned(n, usize::MAX as nat) == Some(*position as nat) && hex_out@
                == #[trigger] ("invalid hex byte at position "@ + n + ": '"@ + pair@ + "'"@),
        w matches WfdError::TooShort { len } ==> exists|n: Seq<char>|
            text::unsigned(n, usize::MAX as nat) == Some(*len as nat) && wfd_out@ == #[trigger] (
            "WFD IE too short to parse subelement header ("@ + n + " bytes)"@),
        w matches WfdError::LengthMismatch { declared, available } ==> exists|
            n: Seq<char>,
            m: Seq<char>,
        |
            {
                &&& text::unsigned(n, usize::MAX as nat) == Some(*declared as nat)
                &&& text::unsigned(m, usize::MAX as nat) == Some(*available as nat)
                &&& wfd_out@ == #[trigger] ("WFD IE length mismatch: header says "@ + n
                    + " bytes but only "@ + m + " available"@)
            },
{
    match h {
        HexError::OddLength { hex } => {},
        HexError::InvalidByte { position, pair } => {
            let n = text::decimal(*position as nat);
            text::law_decimal_round_trip(*position as nat, usize::MAX as nat);
            assert(hex_out@ == "invalid hex byte at position "@ + n + ": '"@ + pair@ + "'"@);
        },
    }
    match w {
        WfdError::TooShort { len } => {
            let n = text::decimal(*len as nat);
            text::law_decimal_round_trip(*len as nat, usize::MAX as nat);
            assert(wfd_out@ == "WFD IE too short to parse subelement header ("@ + n + " bytes)"@);
        },
        WfdError::LengthMismatch { declared, available } => {
            let n = text::decimal(*declared as nat);
            let m = text::decimal(*available as nat);
            text::law_decimal_round_trip(*declared as nat, usize::MAX as nat);
            text::law_decimal_round_trip(*available as nat, usize::MAX as nat);
            assert(wfd_out@ == "WFD IE length mismatch: header says "@ + n + " bytes but only "@ + m
                + " available"@);
        },
    }
}

/// The messages about device types quote the part that is wrong.
pub proof fn law_dev_type_messages(e: &WpsError, out: String)
    requires
        call_ensures(WpsError::message, (e,), out),
    ensures
        e matches WpsError::Format { dev_type } ==> out@ == "invalid WPS device type '"@ + dev_type@
            + "': expected format N-XXXXXXXX-N"@,
        e matches WpsError::Category { category } ==> out@ == "invalid category '"@ + category@
            + "' in WPS dev type"@,
        e matches WpsError::Oui { oui, cause } ==> out@ == "invalid OUI '"@ + oui@
            + "' in WPS dev type"@,
        e matches WpsError::OuiLength { len } ==> exists|n: Seq<char>|
            text::unsigned(n, usize::MAX as nat) == Some(*len as nat) && out@ == #[trigger] (
            "WPS OUI must be exactly 4 bytes, got "@ + n),
        e matches WpsError::Subcategory { subcategory } ==> out@ == "invalid subcategory '"@
            + subcategory@ + "' in WPS dev type"@,
{
    if let WpsError::OuiLength { len } = e {
        let n = text::decimal(*len as nat);
        text::law_decimal_round_trip(*len as nat, usize::MAX as nat);
        assert(out@ == "WPS OUI must be exactly 4 bytes, got "@ + n);
    }
}

} // verus!
