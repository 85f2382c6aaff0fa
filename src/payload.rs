//! Request payloads and their JSON text.
//!
//! Each request is written as compact JSON in UTF-8. A text value is written
//! byte by byte: the quote, the backslash and the control bytes are escaped,
//! every other byte (a multi-byte UTF-8 sequence included) is copied as is.
use vstd::prelude::*;
use vstd::utf8::{decode_utf8, encode_utf8, encode_utf8_decode_utf8};

verus! {

/// The byte `"`.
pub const QUOTE: u8 = 0x22;

/// The byte `\`.
pub const BACKSLASH: u8 = 0x5c;

/// The byte `{`.
pub const OPEN_BRACE: u8 = 0x7b;

/// The byte `}`.
pub const CLOSE_BRACE: u8 = 0x7d;

/// The lower-case hexadecimal digit for `n`.
pub open spec fn hex_digit(n: u8) -> u8
    recommends
        n < 16,
{
    if n < 10 {
        (0x30 + n) as u8
    } else {
        (0x61 + n - 10) as u8
    }
}

/// The value of a hexadecimal digit of either case.
pub open spec fn hex_value(d: u8) -> Option<u8> {
    if 0x30 <= d <= 0x39 {
        Some((d - 0x30) as u8)
    } else if 0x61 <= d <= 0x66 {
        Some((d - 0x61 + 10) as u8)
    } else if 0x41 <= d <= 0x46 {
        Some((d - 0x41 + 10) as u8)
    } else {
        None
    }
}

/// The letter of the short escape for a byte, if it has one.
pub open spec fn short_escape(b: u8) -> Option<u8> {
    if b == QUOTE {
        Some(QUOTE)
    } else if b == BACKSLASH {
        Some(BACKSLASH)
    } else if b == 0x08 {
        Some(0x62u8)
    } else if b == 0x0c {
        Some(0x66u8)
    } else if b == 0x0a {
        Some(0x6eu8)
    } else if b == 0x0d {
        Some(0x72u8)
    } else if b == 0x09 {
        Some(0x74u8)
    } else {
        None
    }
}

/// The byte that a short escape letter stands for.
pub open spec fn short_unescape(c: u8) -> Option<u8> {
    if c == QUOTE {
        Some(QUOTE)
    } else if c == BACKSLASH {
        Some(BACKSLASH)
    } else if c == 0x2f {
        Some(0x2fu8)
    } else if c == 0x62 {
        Some(0x08u8)
    } else if c == 0x66 {
        Some(0x0cu8)
    } else if c == 0x6e {
        Some(0x0au8)
    } else if c == 0x72 {
        Some(0x0du8)
    } else if c == 0x74 {
        Some(0x09u8)
    } else {
        None
    }
}

/// How one byte of a text value is written inside a JSON string.
pub open spec fn escape_byte(b: u8) -> Seq<u8> {
    match short_escape(b) {
        Some(c) => seq![BACKSLASH, c],
        None => if b < 0x20 {
            seq![BACKSLASH, 0x75u8, 0x30u8, 0x30u8, hex_digit(b / 16), hex_digit(b % 16)]
        } else {
            seq![b]
        },
    }
}

/// How a text value is written between the quotes of a JSON string.
pub open spec fn escape(s: Seq<u8>) -> Seq<u8>
    decreases s.len(),
{
    if s.len() == 0 {
        Seq::empty()
    } else {
        escape_byte(s[0]) + escape(s.drop_first())
    }
}

/// Reads a JSON string whose opening quote has been consumed: the text value
/// up to the closing quote, and what follows that quote. A `\u` escape is read
/// where it stands for a single-byte character; any other is not read.
pub open spec fn read_string(s: Seq<u8>) -> Option<(Seq<u8>, Seq<u8>)>
    decreases s.len(),
{
    if s.len() == 0 {
        None
    } else if s[0] == QUOTE {
        Some((Seq::empty(), s.drop_first()))
    } else if s[0] == BACKSLASH {
        if s.len() < 2 {
            None
        } else if s[1] == 0x75 {
            if s.len() < 6 || s[2] != 0x30 || s[3] != 0x30 {
                None
            } else {
                match (hex_value(s[4]), hex_value(s[5])) {
                    (Some(hi), Some(lo)) => if hi < 8 {
                        prepend((hi * 16 + lo) as u8, read_string(s.subrange(6, s.len() as int)))
                    } else {
                        None
                    },
                    _ => None,
                }
            }
        } else {
            match short_unescape(s[1]) {
                Some(b) => prepend(b, read_string(s.subrange(2, s.len() as int))),
                None => None,
            }
        }
    } else if s[0] < 0x20 {
        None
    } else {
        prepend(s[0], read_string(s.drop_first()))
    }
}

/// Puts `b` in front of the text value of a reading.
pub open spec fn prepend(b: u8, r: Option<(Seq<u8>, Seq<u8>)>) -> Option<(Seq<u8>, Seq<u8>)> {
    match r {
        Some((v, rest)) => Some((seq![b] + v, rest)),
        None => None,
    }
}

/// What the JSON text of a connect request starts with: `{"ssid":"`.
pub open spec fn connect_prefix() -> Seq<u8> {
    seq![OPEN_BRACE, QUOTE, 0x73u8, 0x73u8, 0x69u8, 0x64u8, QUOTE, 0x3au8, QUOTE]
}

/// The JSON text of a connect request whose network identifier is the UTF-8
/// text `ssid`: `{"ssid":"` and the escaped identifier, then `"}`.
pub open spec fn connect_json(ssid: Seq<u8>) -> Seq<u8> {
    connect_prefix() + escape(ssid) + seq![QUOTE, CLOSE_BRACE]
}

/// The network identifier of the JSON text of a connect request, if the text
/// is one.
pub open spec fn read_connect_json(j: Seq<u8>) -> Option<Seq<u8>> {
    let n = connect_prefix().len() as int;
    if j.len() < n || j.subrange(0, n) != connect_prefix() {
        None
    } else {
        match read_string(j.subrange(n, j.len() as int)) {
            Some((v, rest)) => if rest == seq![CLOSE_BRACE] {
                Some(v)
            } else {
                None
            },
            None => None,
        }
    }
}

/// The JSON text of the empty request: `{}`.
pub open spec fn empty_json() -> Seq<u8> {
    seq![OPEN_BRACE, CLOSE_BRACE]
}

/// Escaping a concatenation escapes each part.
pub proof fn lemma_escape_append(a: Seq<u8>, b: Seq<u8>)
    ensures
        escape(a + b) == escape(a) + escape(b),
    decreases a.len(),
{
    if a.len() == 0 {
        assert(a + b =~= b);
    } else {
        assert((a + b).drop_first() =~= a.drop_first() + b);
        lemma_escape_append(a.drop_first(), b);
        assert(escape(a + b) =~= escape(a) + escape(b));
    }
}

/// Reading back one escaped byte gives the byte.
proof fn lemma_read_escaped_byte(b: u8, rest: Seq<u8>)
    ensures
        read_string(escape_byte(b) + rest) == prepend(b, read_string(rest)),
{
    let s = escape_byte(b) + rest;
    let k = escape_byte(b).len() as int;
    assert(s.subrange(k, s.len() as int) =~= rest);
    if short_escape(b) is None && b < 0x20 {
        assert(hex_value(hex_digit(b / 16)) == Some((b / 16) as u8));
        assert(hex_value(hex_digit(b % 16)) == Some((b % 16) as u8));
        assert(((b / 16) as u8 * 16 + (b % 16) as u8) as u8 == b);
    }
}

/// An escaped text value followed by a closing quote reads back as the value,
/// with what follows the quote left over.
pub proof fn lemma_read_escaped(v: Seq<u8>, rest: Seq<u8>)
    ensures
        read_string(escape(v) + seq![QUOTE] + rest) == Some((v, rest)),
    decreases v.len(),
{
    let s = escape(v) + seq![QUOTE] + rest;
    if v.len() == 0 {
        assert(s =~= seq![QUOTE] + rest);
        assert(s.drop_first() =~= rest);
    } else {
        let tail = escape(v.drop_first()) + seq![QUOTE] + rest;
        assert(s =~= escape_byte(v[0]) + tail);
        lemma_read_escaped_byte(v[0], tail);
        lemma_read_escaped(v.drop_first(), rest);
        assert(seq![v[0]] + v.drop_first() =~= v);
    }
}

/// The JSON text of a connect request carries the network identifier under
/// the field `ssid`, unchanged: reading it back gives the identifier's UTF-8
/// text, whatever characters it holds.
pub proof fn lemma_connect_json_reads_back(ssid: Seq<char>)
    ensures
        read_connect_json(connect_json(encode_utf8(ssid))) == Some(encode_utf8(ssid)),
{
    let b = encode_utf8(ssid);
    let j = connect_json(b);
    let n = connect_prefix().len() as int;
    assert(j.subrange(0, n) =~= connect_prefix());
    assert(j.subrange(n, j.len() as int) =~= escape(b) + seq![QUOTE] + seq![CLOSE_BRACE]);
    lemma_read_escaped(b, seq![CLOSE_BRACE]);
}

/// The hexadecimal digit for `n`, as [`hex_digit`] gives it.
fn write_hex_digit(n: u8) -> (r: u8)
    requires
        n < 16,
    ensures
        r == hex_digit(n),
{
    if n < 10 {
        0x30 + n
    } else {
        0x61 + n - 10
    }
}

/// Appends how the byte `b` of a text value is written.
fn push_escaped(out: &mut Vec<u8>, b: u8)
    ensures
        final(out)@ == old(out)@ + escape_byte(b),
{
    let short: Option<u8> = if b == QUOTE {
        Some(QUOTE)
    } else if b == BACKSLASH {
        Some(BACKSLASH)
    } else if b == 0x08 {
        Some(0x62u8)
    } else if b == 0x0c {
        Some(0x66u8)
    } else if b == 0x0a {
        Some(0x6eu8)
    } else if b == 0x0d {
        Some(0x72u8)
    } else if b == 0x09 {
        Some(0x74u8)
    } else {
        None
    };
    match short {
        Some(c) => {
            out.push(BACKSLASH);
            out.push(c);
        },
        None => {
            if b < 0x20 {
                out.push(BACKSLASH);
                out.push(0x75u8);
                out.push(0x30u8);
                out.push(0x30u8);
                out.push(write_hex_digit(b / 16));
                out.push(write_hex_digit(b % 16));
            } else {
                out.push(b);
            }
        },
    }
    assert(final(out)@ =~= old(out)@ + escape_byte(b));
}

/// Appends the escaped form of the text value `s`.
fn push_escaped_all(out: &mut Vec<u8>, s: &[u8])
    ensures
        final(out)@ == old(out)@ + escape(s@),
{
    let ghost start = out@;
    let mut i: usize = 0;
    while i < s.len()
        invariant
            i <= s@.len(),
            out@ == start + escape(s@.subrange(0, i as int)),
        decreases s@.len() - i,
    {
        proof {
            let a = s@.subrange(0, i as int);
            let one = seq![s@[i as int]];
            assert(s@.subrange(0, i + 1) =~= a + one);
            lemma_escape_append(a, one);
            assert(escape(one) =~= escape_byte(s@[i as int]) + escape(one.drop_first()));
            assert(escape(one) =~= escape_byte(s@[i as int]));
        }
        push_escaped(out, s[i]);
        i = i + 1;
    }
    assert(s@.subrange(0, s@.len() as int) =~= s@);
}

/// A request to join the Wi-Fi network named `ssid`. The name is opaque
/// text: it is neither checked nor normalised.
#[derive(Debug, Clone, PartialEq, Eq)]
pub struct ConnectWifiPayload {
    pub ssid: String,
}

impl ConnectWifiPayload {
    /// The JSON text of this request.
    pub open spec fn json(&self) -> Seq<u8> {
        connect_json(encode_utf8(self.ssid@))
    }

    /// A request to join the network named `ssid`.
    pub fn new(ssid: String) -> (r: Self)
        ensures
            r.ssid@ == ssid@,
    {
        ConnectWifiPayload { ssid }
    }

    /// Writes the request as JSON: `{"ssid":"` and the escaped name, then `"}`.
    pub fn to_json(&self) -> (r: Vec<u8>)
        ensures
            r@ == self.json(),
    {
        let mut out: Vec<u8> = Vec::new();
        out.push(OPEN_BRACE);
        out.push(QUOTE);
        out.push(0x73u8);
        out.push(0x73u8);
        out.push(0x69u8);
        out.push(0x64u8);
        out.push(QUOTE);
        out.push(0x3au8);
        out.push(QUOTE);
        assert(out@ =~= connect_prefix());
        let bytes: &[u8] = self.ssid.as_str().as_bytes();
        push_escaped_all(&mut out, bytes);
        out.push(QUOTE);
        out.push(CLOSE_BRACE);
        assert(out@ =~= self.json());
        out
    }
}

/// The JSON text of a connect request names the field `ssid` and carries the
/// network identifier unchanged: read back, it is the identifier's UTF-8 text,
/// and decoding that text gives the identifier's characters.
pub proof fn lemma_connect_payload_carries_ssid(p: ConnectWifiPayload)
    ensures
        p.json().subrange(0, connect_prefix().len() as int) == connect_prefix(),
        read_connect_json(p.json()) == Some(encode_utf8(p.ssid@)),
        decode_utf8(encode_utf8(p.ssid@)) == p.ssid@,
{
    let j = p.json();
    assert(j.subrange(0, connect_prefix().len() as int) =~= connect_prefix());
    lemma_connect_json_reads_back(p.ssid@);
    encode_utf8_decode_utf8(p.ssid@);
}

/// A request that carries no fields.
#[derive(Debug, Clone, Copy, PartialEq, Eq, Default)]
pub struct Empty {}

impl Empty {
    /// The JSON text of this request.
    pub open spec fn json(&self) -> Seq<u8> {
        empty_json()
    }

    /// Writes the request as JSON: `{}`.
    pub fn to_json(&self) -> (r: Vec<u8>)
        ensures
            r@ == self.json(),
    {
        let mut r: Vec<u8> = Vec::new();
        r.push(OPEN_BRACE);
        r.push(CLOSE_BRACE);
        r
    }
}

/// Every empty request is written the same way, as `{}`, with no field.
pub proof fn lemma_empty_json_shape(a: Empty, b: Empty)
    ensures
        a.json() == b.json(),
        a.json() == seq![OPEN_BRACE, CLOSE_BRACE],
{
}

} // verus!
