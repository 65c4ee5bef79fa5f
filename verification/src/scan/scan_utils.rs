//! The codec for scan results.
//!
//! The scan tool prints one access point per line, its fields parted by
//! tabs, and writes the bytes of an SSID that it cannot print as escapes.
//! The codec finds the lines that describe an access point, undoes the
//! escapes, makes text of the bytes without losing one, and writes the
//! access points as an array of JSON objects.

use vstd::prelude::*;
use vstd::slice::slice_subrange;
use vstd::string::StringExecFns;
use vstd::string::StrSliceExecFns;
use vstd::utf8::decode_utf8;
use vstd::utf8::decode_utf8_encode_utf8;
use vstd::utf8::encode_utf8;
use vstd::utf8::encode_utf8_decode_utf8;
use vstd::utf8::valid_utf8;
use crate::connect::interface::is_fail;
use crate::connect::interface::response_failed;
use crate::text::ascii_text;
use crate::text::decode_or_valid_up_to;
use crate::text::is_valid_up_to;
use crate::text::hex_digit;
use crate::text::hex_pair;
use crate::text::push_ascii;
use crate::text::push_hex_pair;

verus! {

/// Whether `byte` is a hexadecimal digit.
pub open spec fn is_hex_digit(byte: u8) -> bool {
    0x30 <= byte <= 0x39 || 0x41 <= byte <= 0x46 || 0x61 <= byte <= 0x66
}

/// The value of the hexadecimal digit `byte`.
pub open spec fn hex_value(byte: u8) -> int {
    if byte <= 0x39 {
        byte - 0x30
    } else if byte <= 0x46 {
        byte - 0x41 + 10
    } else {
        byte - 0x61 + 10
    }
}

/// Length of the escape that `s` starts with: 2 for a doubled backslash,
/// 4 for a backslash, an `x` and two hexadecimal digits, 0 where `s` starts
/// with neither.
pub open spec fn escape_len(s: Seq<u8>) -> int {
    if s.len() >= 2 && s[0] == 0x5c && s[1] == 0x5c {
        2
    } else if s.len() >= 4 && s[0] == 0x5c && s[1] == 0x78 && is_hex_digit(s[2]) && is_hex_digit(
        s[3],
    ) {
        4
    } else {
        0
    }
}

/// The byte that the escape at the start of `s` stands for.
pub open spec fn escape_value(s: Seq<u8>) -> u8
    recommends
        escape_len(s) > 0,
{
    if escape_len(s) == 2 {
        0x5c
    } else {
        (16 * hex_value(s[2]) + hex_value(s[3])) as u8
    }
}

/// `s` with every escape replaced by the byte it stands for, read from left
/// to right. What is no escape stands as it is.
pub open spec fn unescaped(s: Seq<u8>) -> Seq<u8>
    decreases s.len(),
{
    if s.len() == 0 {
        Seq::empty()
    } else if escape_len(s) > 0 {
        seq![escape_value(s)] + unescaped(s.skip(escape_len(s)))
    } else {
        seq![s[0]] + unescaped(s.skip(1))
    }
}

fn hex_digit_value(byte: u8) -> (value: Option<u8>)
    ensures
        match value {
            Some(v) => is_hex_digit(byte) && v == hex_value(byte),
            None => !is_hex_digit(byte),
        },
{
    if 0x30 <= byte && byte <= 0x39 {
        Some(byte - 0x30)
    } else if 0x41 <= byte && byte <= 0x46 {
        Some(byte - 0x41 + 10)
    } else if 0x61 <= byte && byte <= 0x66 {
        Some(byte - 0x61 + 10)
    } else {
        None
    }
}

/// Undoes the escapes in `bytes`.
pub fn unescape_hex_bytes(bytes: &[u8]) -> (out: Vec<u8>)
    ensures
        out@ == unescaped(bytes@),
{
    let len: usize = bytes.len();
    let mut out: Vec<u8> = Vec::new();
    let mut i: usize = 0;
    assert(bytes@.skip(0) =~= bytes@);
    while i < len
        invariant
            i <= len,
            len == bytes@.len(),
            unescaped(bytes@) == out@ + unescaped(bytes@.skip(i as int)),
        decreases len - i,
    {
        let ghost rest = bytes@.skip(i as int);
        let mut step: usize = 1;
        let mut value: u8 = bytes[i];
        if bytes[i] == 0x5c {
            if len - i >= 2 && bytes[i + 1] == 0x5c {
                step = 2;
            } else if len - i >= 4 && bytes[i + 1] == 0x78 {
                match (hex_digit_value(bytes[i + 2]), hex_digit_value(bytes[i + 3])) {
                    (Some(high), Some(low)) => {
                        step = 4;
                        value = 16 * high + low;
                    },
                    _ => {},
                }
            }
        }
        proof {
            assert(rest.skip(step as int) =~= bytes@.skip(i + step));
            assert(step == if escape_len(rest) > 0 {
                escape_len(rest)
            } else {
                1
            });
            assert(unescaped(rest) == seq![value] + unescaped(rest.skip(step as int)));
            assert(out@.push(value) + unescaped(rest.skip(step as int)) =~= out@ + unescaped(rest));
        }
        out.push(value);
        i = i + step;
    }
    assert(out@ + Seq::<u8>::empty() =~= out@);
    out
}

/// Undoes the escapes that the scan tool writes for the bytes of an SSID
/// that it cannot print: a doubled backslash stands for a backslash, and a
/// backslash, an `x` and two hexadecimal digits stand for the byte of that
/// value.
pub fn unescape_hex(ssid: &str) -> (out: Vec<u8>)
    ensures
        out@ == unescaped(encode_utf8(ssid@)),
{
    unescape_hex_bytes(ssid.as_bytes())
}

/// Length of the longest start of `bytes` that is valid UTF-8.
pub open spec fn valid_up_to(bytes: Seq<u8>) -> int {
    choose|k: int| is_valid_up_to(bytes, k)
}

/// How a byte that belongs to no valid character is written: `0x` and its
/// two hexadecimal digits, in capitals.
pub open spec fn invalid_byte_text(byte: u8) -> Seq<char> {
    seq!['0', 'x'] + hex_pair(byte, true)
}

/// The text that `bytes` stand for. Bytes are decoded as UTF-8 as far as
/// they are valid; a byte at which decoding fails is written out by its
/// value and decoding goes on behind it.
pub open spec fn lossless_text(bytes: Seq<u8>) -> Seq<char>
    decreases bytes.len(),
{
    if valid_utf8(bytes) {
        decode_utf8(bytes)
    } else {
        let k = valid_up_to(bytes);
        if 0 <= k < bytes.len() {
            decode_utf8(bytes.take(k)) + invalid_byte_text(bytes[k]) + lossless_text(
                bytes.skip(k + 1),
            )
        } else {
            Seq::empty()
        }
    }
}

/// There is one longest valid start only.
pub proof fn lemma_valid_up_to_unique(bytes: Seq<u8>, k: int)
    requires
        is_valid_up_to(bytes, k),
    ensures
        valid_up_to(bytes) == k,
        !valid_utf8(bytes) ==> k < bytes.len(),
{
    let c = valid_up_to(bytes);
    assert(is_valid_up_to(bytes, c));
    if c < k {
        assert(!valid_utf8(bytes.take(k)));
    }
    if k < c {
        assert(!valid_utf8(bytes.take(c)));
    }
    if k == bytes.len() {
        assert(bytes.take(k) =~= bytes);
    }
}

/// Makes text of `bytestring` without dropping a byte: what is valid UTF-8
/// is decoded, and each byte at which decoding fails is written as `0x` and
/// its two hexadecimal digits.
pub fn escape_invalid_unicode(bytestring: Vec<u8>) -> (escaped: String)
    ensures
        escaped@ == lossless_text(bytestring@),
{
    let all = bytestring.as_slice();
    let mut escaped = String::new();
    let mut start: usize = 0;
    assert(all@.skip(0) =~= all@);
    loop
        invariant
            start <= all@.len(),
            all@ == bytestring@,
            lossless_text(bytestring@) == escaped@ + lossless_text(all@.skip(start as int)),
        decreases all@.len() - start,
    {
        let rest = slice_subrange(all, start, all.len());
        let ghost before = escaped@;
        assert(rest@ =~= all@.skip(start as int));
        match decode_or_valid_up_to(rest) {
            Ok(text) => {
                proof {
                    encode_utf8_decode_utf8(text@);
                }
                escaped.append(text);
                return escaped;
            },
            Err(good) => {
                proof {
                    lemma_valid_up_to_unique(rest@, good as int);
                }
                let valid = slice_subrange(rest, 0, good);
                assert(valid@ =~= rest@.take(good as int));
                match decode_or_valid_up_to(valid) {
                    Ok(text) => {
                        proof {
                            encode_utf8_decode_utf8(text@);
                        }
                        escaped.append(text);
                    },
                    Err(_) => {
                        assert(false);
                    },
                }
                escaped.append("0x");
                proof {
                    reveal_strlit("0x");
                    assert("0x"@ =~= seq!['0', 'x']);
                }
                push_hex_pair(&mut escaped, rest[good], true);
                assert(rest@.skip(good + 1) =~= all@.skip(start + good + 1));
                assert(escaped@ =~= before + decode_utf8(rest@.take(good as int))
                    + invalid_byte_text(rest@[good as int]));
                assert(escaped@ + lossless_text(rest@.skip(good + 1)) =~= before + lossless_text(
                    rest@,
                ));
                start = start + good + 1;
            },
        }
    }
}

/// The four hexadecimal digits of `value`, in capitals.
pub open spec fn hex_quad(value: int) -> Seq<char> {
    hex_pair((value / 256) as u8, true) + hex_pair((value % 256) as u8, true)
}

/// The JSON escape of the UTF-16 code unit `unit`.
pub open spec fn unicode_escape(unit: int) -> Seq<char> {
    seq!['\\', 'u'] + hex_quad(unit)
}

/// How a character is written inside a JSON string. The quote, the
/// backslash and five control characters have escapes by name. The other
/// control characters and all characters above `~` are written by their
/// UTF-16 code units, those beyond the basic plane as a surrogate pair.
/// What is left is printable ASCII and stands for itself.
pub open spec fn json_escaped_char(c: char) -> Seq<char> {
    let code = c as int;
    if code == 0x22 {
        seq!['\\', '"']
    } else if code == 0x5c {
        seq!['\\', '\\']
    } else if code == 0x08 {
        seq!['\\', 'b']
    } else if code == 0x0a {
        seq!['\\', 'n']
    } else if code == 0x0d {
        seq!['\\', 'r']
    } else if code == 0x0c {
        seq!['\\', 'f']
    } else if code == 0x09 {
        seq!['\\', 't']
    } else if code < 0x20 {
        unicode_escape(code)
    } else if code >= 0x10000 {
        unicode_escape(0xd800 + (code - 0x10000) / 0x400) + unicode_escape(
            0xdc00 + (code - 0x10000) % 0x400,
        )
    } else if code > 0x7e {
        unicode_escape(code)
    } else {
        seq![c]
    }
}

/// How a text is written inside a JSON string: character by character.
pub open spec fn json_escaped(text: Seq<char>) -> Seq<char>
    decreases text.len(),
{
    if text.len() == 0 {
        Seq::empty()
    } else {
        json_escaped(text.drop_last()) + json_escaped_char(text.last())
    }
}

fn push_unicode_escape(text: &mut String, unit: u16)
    ensures
        final(text)@ == old(text)@ + unicode_escape(unit as int),
{
    text.push('\\');
    text.push('u');
    push_hex_pair(text, (unit / 256) as u8, true);
    push_hex_pair(text, (unit % 256) as u8, true);
    assert(text@ =~= old(text)@ + unicode_escape(unit as int));
}

fn push_json_escaped_char(text: &mut String, c: char)
    ensures
        final(text)@ == old(text)@ + json_escaped_char(c),
{
    let code: u32 = c as u32;
    if code == 0x22 {
        text.push('\\');
        text.push('"');
    } else if code == 0x5c {
        text.push('\\');
        text.push('\\');
    } else if code == 0x08 {
        text.push('\\');
        text.push('b');
    } else if code == 0x0a {
        text.push('\\');
        text.push('n');
    } else if code == 0x0d {
        text.push('\\');
        text.push('r');
    } else if code == 0x0c {
        text.push('\\');
        text.push('f');
    } else if code == 0x09 {
        text.push('\\');
        text.push('t');
    } else if code < 0x20 {
        push_unicode_escape(text, code as u16);
    } else if code >= 0x10000 {
        let above: u32 = code - 0x10000;
        push_unicode_escape(text, (0xd800 + above / 0x400) as u16);
        push_unicode_escape(text, (0xdc00 + above % 0x400) as u16);
    } else if code > 0x7e {
        push_unicode_escape(text, code as u16);
    } else {
        text.push(c);
    }
    assert(text@ =~= old(text)@ + json_escaped_char(c));
}

/// Appends `text`, written as inside a JSON string, to `out`.
pub fn push_json_escaped(out: &mut String, text: &str)
    ensures
        final(out)@ == old(out)@ + json_escaped(text@),
{
    assert(text@.take(0) =~= Seq::<char>::empty());
    for c in it: text.chars()
        invariant
            it.seq() == text@,
            out@ == old(out)@ + json_escaped(text@.take(it.index() as int)),
    {
        let ghost upto = text@.take(it.index() + 1);
        assert(upto.drop_last() =~= text@.take(it.index() as int));
        assert(upto.last() == c);
        push_json_escaped_char(out, c);
        assert(out@ =~= old(out)@ + json_escaped(upto));
    }
    assert(text@.take(text@.len() as int) =~= text@);
}

/// Makes text of `bytestring`, as [`escape_invalid_unicode`] does, and
/// writes it as inside a JSON string.
pub fn escape_json(bytestring: Vec<u8>) -> (escaped: String)
    ensures
        escaped@ == json_escaped(lossless_text(bytestring@)),
{
    let unescaped_str = escape_invalid_unicode(bytestring);
    let mut escaped = String::new();
    push_json_escaped(&mut escaped, unescaped_str.as_str());
    assert(Seq::<char>::empty() + json_escaped(unescaped_str@) =~= json_escaped(unescaped_str@));
    escaped
}

/// The kinds of bytes that a field of a line is made of.
#[derive(Clone, Copy, Debug, PartialEq, Eq, Structural)]
pub enum Run {
    /// Decimal digits.
    Digits,
    /// What stands between the brackets of a flag: letters, digits, `+`
    /// and `-`.
    FlagChars,
    /// Everything but the end of the line.
    UpToNewline,
}

/// Whether `byte` is of the kind `run`.
pub open spec fn in_run(run: Run, byte: u8) -> bool {
    match run {
        Run::Digits => 0x30 <= byte <= 0x39,
        Run::FlagChars => 0x30 <= byte <= 0x39 || 0x41 <= byte <= 0x5a || 0x61 <= byte <= 0x7a
            || byte == 0x2b || byte == 0x2d,
        Run::UpToNewline => byte != 0x0a,
    }
}

/// The index behind the longest run of bytes of the kind `run` that starts
/// at `p`.
pub open spec fn run_end(t: Seq<u8>, p: int, run: Run) -> int
    decreases t.len() - p,
{
    if 0 <= p < t.len() && in_run(run, t[p]) {
        run_end(t, p + 1, run)
    } else {
        p
    }
}

/// Whether `t` holds `byte` at `p`.
pub open spec fn byte_at(t: Seq<u8>, p: int, byte: u8) -> bool {
    0 <= p < t.len() && t[p] == byte
}

/// Whether `m` is a hardware address: six pairs of hexadecimal digits with
/// a colon between each two.
pub open spec fn is_mac(m: Seq<u8>) -> bool {
    &&& m.len() == 17
    &&& forall|k: int|
        0 <= k < 17 ==> if k % 3 == 2 {
            #[trigger] m[k] == 0x3a
        } else {
            is_hex_digit(m[k])
        }
}

/// The index behind the flags that start at `p`. A flag is a run of flag
/// characters, at least one, in square brackets; flags follow each other
/// without anything between them.
pub open spec fn flags_end(t: Seq<u8>, p: int) -> int
    decreases t.len() - p,
{
    let close = run_end(t, p + 1, Run::FlagChars);
    if byte_at(t, p, 0x5b) && p + 1 < close && byte_at(t, close, 0x5d) {
        flags_end(t, close + 1)
    } else {
        p
    }
}

/// Where the fields of an access point's line stand in a text. The line
/// ends at `ssid_end`, with a line feed.
pub struct Span {
    /// Start of the hardware address, which is 17 bytes long.
    pub mac: int,
    /// Start of the channel.
    pub channel: int,
    /// End of the channel.
    pub channel_end: int,
    /// Start of the signal level, at its sign where it has one.
    pub rssi: int,
    /// End of the signal level.
    pub rssi_end: int,
    /// Start of the SSID.
    pub ssid: int,
    /// End of the SSID.
    pub ssid_end: int,
}

/// The access point described at `p`, if one is: a hardware address, the
/// channel as digits, the signal level as digits with or without a minus
/// sign before them, any number of flags and the SSID, which is what is
/// left of the line. A tab stands between each two of the fields and a line
/// feed at the end.
pub open spec fn record_at(t: Seq<u8>, p: int) -> Option<Span> {
    let channel = p + 18;
    let channel_end = run_end(t, channel, Run::Digits);
    let rssi = channel_end + 1;
    let level = if byte_at(t, rssi, 0x2d) {
        rssi + 1
    } else {
        rssi
    };
    let rssi_end = run_end(t, level, Run::Digits);
    let ssid = flags_end(t, rssi_end + 1) + 1;
    let ssid_end = run_end(t, ssid, Run::UpToNewline);
    if 0 <= p && p + 17 <= t.len() && is_mac(t.subrange(p, p + 17)) && byte_at(t, p + 17, 0x09)
        && channel < channel_end && byte_at(t, channel_end, 0x09) && level < rssi_end && byte_at(
        t,
        rssi_end,
        0x09,
    ) && byte_at(t, ssid - 1, 0x09) && ssid_end < t.len() {
        Some(Span { mac: p, channel, channel_end, rssi, rssi_end, ssid, ssid_end })
    } else {
        None
    }
}

/// The access points described in `t` from `p` on, in the order of the
/// text. An access point may be described anywhere in a line; the search
/// goes on behind the line of the one found last.
pub open spec fn records_from(t: Seq<u8>, p: int) -> Seq<Span>
    decreases t.len() - p,
{
    if p < 0 || p >= t.len() {
        Seq::empty()
    } else {
        match record_at(t, p) {
            Some(span) => if p <= span.ssid_end < t.len() {
                seq![span] + records_from(t, span.ssid_end + 1)
            } else {
                Seq::empty()
            },
            None => records_from(t, p + 1),
        }
    }
}

/// The JSON object for the access point at `span`. Its SSID is unescaped,
/// made text and JSON-escaped; the other fields are copied.
pub open spec fn record_json(t: Seq<u8>, span: Span) -> Seq<char> {
    "{\"ssid\":\""@ + json_escaped(
        lossless_text(unescaped(t.subrange(span.ssid, span.ssid_end))),
    ) + "\",\"rssi\":\""@ + ascii_text(t.subrange(span.rssi, span.rssi_end)) + "\",\"mac\":\""@
        + ascii_text(t.subrange(span.mac, span.mac + 17)) + "\",\"ch\":\""@ + ascii_text(
        t.subrange(span.channel, span.channel_end),
    ) + "\"}"@
}

/// The JSON objects for the access points at `spans`, with commas between
/// them.
pub open spec fn records_json(t: Seq<u8>, spans: Seq<Span>) -> Seq<char>
    decreases spans.len(),
{
    if spans.len() == 0 {
        Seq::empty()
    } else if spans.len() == 1 {
        record_json(t, spans[0])
    } else {
        records_json(t, spans.drop_last()) + seq![','] + record_json(t, spans.last())
    }
}

/// The JSON array of the access points described in `t`.
pub open spec fn access_points_json(t: Seq<u8>) -> Seq<char> {
    seq!['['] + records_json(t, records_from(t, 0)) + seq![']']
}

impl Span {
    /// The fields follow each other in a text of `len` bytes, each with the
    /// tab before it, and the line's end lies within the text.
    pub open spec fn within(self, len: int) -> bool {
        &&& 0 <= self.mac
        &&& self.mac + 18 == self.channel
        &&& self.channel < self.channel_end
        &&& self.channel_end + 1 == self.rssi
        &&& self.rssi < self.rssi_end
        &&& self.rssi_end < self.ssid
        &&& self.ssid <= self.ssid_end
        &&& self.ssid_end < len
    }
}

/// Where the fields of an access point's line stand in the bytes at hand.
#[derive(Clone, Copy, Debug)]
pub struct RecordSpan {
    /// Start of the hardware address.
    pub mac: usize,
    /// Start of the channel.
    pub channel: usize,
    /// End of the channel.
    pub channel_end: usize,
    /// Start of the signal level.
    pub rssi: usize,
    /// End of the signal level.
    pub rssi_end: usize,
    /// Start of the SSID.
    pub ssid: usize,
    /// End of the SSID.
    pub ssid_end: usize,
}

impl View for RecordSpan {
    type V = Span;

    open spec fn view(&self) -> Span {
        Span {
            mac: self.mac as int,
            channel: self.channel as int,
            channel_end: self.channel_end as int,
            rssi: self.rssi as int,
            rssi_end: self.rssi_end as int,
            ssid: self.ssid as int,
            ssid_end: self.ssid_end as int,
        }
    }
}

fn is_in_run(run: Run, byte: u8) -> (member: bool)
    ensures
        member == in_run(run, byte),
{
    match run {
        Run::Digits => 0x30 <= byte && byte <= 0x39,
        Run::FlagChars => (0x30 <= byte && byte <= 0x39) || (0x41 <= byte && byte <= 0x5a) || (0x61
            <= byte && byte <= 0x7a) || byte == 0x2b || byte == 0x2d,
        Run::UpToNewline => byte != 0x0a,
    }
}

fn skip_run(t: &[u8], p: usize, run: Run) -> (end: usize)
    requires
        p <= t@.len(),
    ensures
        end == run_end(t@, p as int, run),
        p <= end <= t@.len(),
{
    let mut i: usize = p;
    while i < t.len() && is_in_run(run, t[i])
        invariant
            p <= i <= t@.len(),
            run_end(t@, p as int, run) == run_end(t@, i as int, run),
        decreases t@.len() - i,
    {
        i = i + 1;
    }
    i
}

fn has_byte(t: &[u8], p: usize, byte: u8) -> (found: bool)
    ensures
        found == byte_at(t@, p as int, byte),
{
    p < t.len() && t[p] == byte
}

fn skip_flags(t: &[u8], p: usize) -> (end: usize)
    requires
        p <= t@.len(),
    ensures
        end == flags_end(t@, p as int),
        p <= end <= t@.len(),
{
    let len: usize = t.len();
    let mut i: usize = p;
    loop
        invariant
            len == t@.len(),
            p <= i <= t@.len(),
            flags_end(t@, p as int) == flags_end(t@, i as int),
        decreases t@.len() - i,
    {
        if !has_byte(t, i, 0x5b) {
            return i;
        }
        let close: usize = skip_run(t, i + 1, Run::FlagChars);
        if close == i + 1 || !has_byte(t, close, 0x5d) {
            return i;
        }
        i = close + 1;
    }
}

fn has_mac(t: &[u8], p: usize) -> (found: bool)
    requires
        p + 17 <= t@.len(),
    ensures
        found == is_mac(t@.subrange(p as int, p + 17)),
{
    let ghost m = t@.subrange(p as int, p + 17);
    let len: usize = t.len();
    let mut k: usize = 0;
    while k < 17
        invariant
            k <= 17,
            len == t@.len(),
            p + 17 <= t@.len(),
            m == t@.subrange(p as int, p + 17),
            forall|j: int|
                0 <= j < k ==> if j % 3 == 2 {
                    #[trigger] m[j] == 0x3a
                } else {
                    is_hex_digit(m[j])
                },
        decreases 17 - k,
    {
        let byte: u8 = t[p + k];
        assert(byte == m[k as int]);
        let fine: bool = if k % 3 == 2 {
            byte == 0x3a
        } else {
            hex_digit_value(byte).is_some()
        };
        if !fine {
            return false;
        }
        k = k + 1;
    }
    true
}

/// Looks for the description of an access point that starts at `p`.
pub fn match_record(t: &[u8], p: usize) -> (found: Option<RecordSpan>)
    ensures
        match found {
            Some(span) => record_at(t@, p as int) == Some(span@) && span.mac == p && span@.within(
                t@.len() as int,
            ),
            None => record_at(t@, p as int) is None,
        },
{
    if p > t.len() || t.len() - p < 18 {
        assert(!(p + 17 <= t@.len() && byte_at(t@, p + 17, 0x09)));
        return None;
    }
    if !has_mac(t, p) || !has_byte(t, p + 17, 0x09) {
        return None;
    }
    let channel: usize = p + 18;
    let channel_end: usize = skip_run(t, channel, Run::Digits);
    if channel_end == channel || !has_byte(t, channel_end, 0x09) {
        return None;
    }
    let rssi: usize = channel_end + 1;
    let level: usize = if has_byte(t, rssi, 0x2d) {
        rssi + 1
    } else {
        rssi
    };
    let rssi_end: usize = skip_run(t, level, Run::Digits);
    if rssi_end == level || !has_byte(t, rssi_end, 0x09) {
        return None;
    }
    let tab: usize = skip_flags(t, rssi_end + 1);
    if !has_byte(t, tab, 0x09) {
        return None;
    }
    let ssid: usize = tab + 1;
    let ssid_end: usize = skip_run(t, ssid, Run::UpToNewline);
    if ssid_end == t.len() {
        return None;
    }
    Some(RecordSpan { mac: p, channel, channel_end, rssi, rssi_end, ssid, ssid_end })
}

fn push_record(json: &mut String, t: &[u8], span: &RecordSpan)
    requires
        span@.within(t@.len() as int),
    ensures
        final(json)@ == old(json)@ + record_json(t@, span@),
{
    let len: usize = t.len();
    json.append("{\"ssid\":\"");
    let ssid: String = escape_json(
        unescape_hex_bytes(slice_subrange(t, span.ssid, span.ssid_end)),
    );
    json.append(ssid.as_str());
    json.append("\",\"rssi\":\"");
    push_ascii(json, t, span.rssi, span.rssi_end);
    json.append("\",\"mac\":\"");
    push_ascii(json, t, span.mac, span.mac + 17);
    json.append("\",\"ch\":\"");
    push_ascii(json, t, span.channel, span.channel_end);
    json.append("\"}");
    assert(json@ =~= old(json)@ + record_json(t@, span@));
}

/// Writes the access points that the scan tool's output `aps` describes as
/// a JSON array, one object for each, in the order of the output. What
/// describes no access point is passed over.
pub fn parse_aps(aps: &str) -> (json: String)
    ensures
        json@ == access_points_json(encode_utf8(aps@)),
{
    let t = aps.as_bytes();
    let mut json = String::new();
    json.push('[');
    let ghost mut found: Seq<Span> = Seq::empty();
    let mut any: bool = false;
    let mut p: usize = 0;
    assert(json@ =~= seq!['['] + records_json(t@, found));
    while p < t.len()
        invariant
            p <= t@.len(),
            t@ == encode_utf8(aps@),
            any == (found.len() > 0),
            records_from(t@, 0) == found + records_from(t@, p as int),
            json@ == seq!['['] + records_json(t@, found),
        decreases t@.len() - p,
    {
        match match_record(t, p) {
            Some(span) => {
                if any {
                    json.push(',');
                }
                push_record(&mut json, t, &span);
                proof {
                    let longer = found.push(span@);
                    assert(longer.drop_last() =~= found);
                    assert(json@ =~= seq!['['] + records_json(t@, longer));
                    assert(longer + records_from(t@, span.ssid_end + 1) =~= found + records_from(
                        t@,
                        p as int,
                    ));
                    found = longer;
                }
                any = true;
                p = span.ssid_end + 1;
            },
            None => {
                p = p + 1;
            },
        }
    }
    json.push(']');
    assert(found + records_from(t@, p as int) =~= found);
    json
}

/// Reads the answer to the command that starts a scan.
pub fn scan_started(response: &str) -> (res: Result<(), String>)
    ensures
        match res {
            Ok(_) => !is_fail(response@),
            Err(e) => is_fail(response@) && e@ == "SCAN failed."@,
        },
{
    if response_failed(response) {
        Err(String::from_str("SCAN failed."))
    } else {
        Ok(())
    }
}

/// Reads the answer to the command that asks for the results of a scan:
/// the access points as a JSON array, in UTF-8, or the report that the
/// command failed.
pub fn scan(found_hotspots: &str) -> (res: Result<Vec<u8>, String>)
    ensures
        match res {
            Ok(json) => !is_fail(found_hotspots@) && json@ == encode_utf8(
                access_points_json(encode_utf8(found_hotspots@)),
            ),
            Err(e) => is_fail(found_hotspots@) && e@ == "SCAN_RESULTS failed."@,
        },
{
    if response_failed(found_hotspots) {
        return Err(String::from_str("SCAN_RESULTS failed."));
    }
    let json = parse_aps(found_hotspots);
    Ok(json.as_str().as_bytes_vec())
}

/// Bytes that are valid UTF-8 are made text as they are: the text encodes
/// to them again.
pub proof fn lemma_valid_text_is_kept(bytes: Seq<u8>)
    requires
        valid_utf8(bytes),
    ensures
        encode_utf8(lossless_text(bytes)) == bytes,
{
    decode_utf8_encode_utf8(bytes);
}

/// Whether `c` is a printable ASCII character.
pub open spec fn is_printable(c: char) -> bool {
    0x20 <= c as int <= 0x7e
}

proof fn lemma_unicode_escape_printable(unit: int)
    requires
        0 <= unit < 0x10000,
    ensures
        unicode_escape(unit).len() == 6,
        forall|i: int| 0 <= i < 6 ==> is_printable(#[trigger] unicode_escape(unit)[i]),
{
    let high = (unit / 256) as u8;
    let low = (unit % 256) as u8;
    assert(unicode_escape(unit) =~= seq![
        '\\',
        'u',
        hex_digit(high as int / 16, true),
        hex_digit(high as int % 16, true),
        hex_digit(low as int / 16, true),
        hex_digit(low as int % 16, true),
    ]);
}

/// What is written for one character inside a JSON string is printable
/// ASCII, and neither a bare quote nor a bare backslash.
pub proof fn lemma_json_escaped_char_printable(c: char)
    ensures
        json_escaped_char(c).len() > 0,
        forall|i: int|
            0 <= i < json_escaped_char(c).len() ==> is_printable(#[trigger] json_escaped_char(c)[i]),
        json_escaped_char(c).len() == 1 ==> json_escaped_char(c)[0] != '"' && json_escaped_char(
            c,
        )[0] != '\\',
{
    let code = c as int;
    if code == 0x22 || code == 0x5c || code == 0x08 || code == 0x0a || code == 0x0d || code == 0x0c
        || code == 0x09 {
    } else if code < 0x20 {
        lemma_unicode_escape_printable(code);
    } else if code >= 0x10000 {
        let high = 0xd800 + (code - 0x10000) / 0x400;
        let low = 0xdc00 + (code - 0x10000) % 0x400;
        lemma_unicode_escape_printable(high);
        lemma_unicode_escape_printable(low);
        assert forall|i: int| 0 <= i < json_escaped_char(c).len() implies is_printable(
            #[trigger] json_escaped_char(c)[i],
        ) by {
            if i < 6 {
                assert(json_escaped_char(c)[i] == unicode_escape(high)[i]);
            } else {
                assert(json_escaped_char(c)[i] == unicode_escape(low)[i - 6]);
            }
        }
    } else if code > 0x7e {
        lemma_unicode_escape_printable(code);
    } else {
    }
}

/// Whatever the text, what is written for it inside a JSON string is
/// printable ASCII.
pub proof fn lemma_json_escaped_printable(text: Seq<char>)
    ensures
        forall|i: int|
            0 <= i < json_escaped(text).len() ==> is_printable(#[trigger] json_escaped(text)[i]),
    decreases text.len(),
{
    if text.len() > 0 {
        lemma_json_escaped_printable(text.drop_last());
        lemma_json_escaped_char_printable(text.last());
        let head = json_escaped(text.drop_last());
        let tail = json_escaped_char(text.last());
        assert forall|i: int| 0 <= i < json_escaped(text).len() implies is_printable(
            #[trigger] json_escaped(text)[i],
        ) by {
            if i < head.len() {
                assert(json_escaped(text)[i] == head[i]);
            } else {
                assert(json_escaped(text)[i] == tail[i - head.len()]);
            }
        }
    }
}

/// A run ends at or behind its start and within the text; it holds bytes
/// of its kind only, and the byte behind it, if there is one, is of another
/// kind.
pub proof fn lemma_run_end(t: Seq<u8>, p: int, run: Run)
    requires
        0 <= p <= t.len(),
    ensures
        p <= run_end(t, p, run) <= t.len(),
        forall|k: int| p <= k < run_end(t, p, run) ==> in_run(run, #[trigger] t[k]),
        run_end(t, p, run) < t.len() ==> !in_run(run, t[run_end(t, p, run)]),
    decreases t.len() - p,
{
    if p < t.len() && in_run(run, t[p]) {
        lemma_run_end(t, p + 1, run);
    }
}

/// Flags end at or behind their start and within the text, and no line
/// ends within them.
pub proof fn lemma_flags_end(t: Seq<u8>, p: int)
    requires
        0 <= p <= t.len(),
    ensures
        p <= flags_end(t, p) <= t.len(),
        forall|k: int| p <= k < flags_end(t, p) ==> #[trigger] t[k] != 0x0a,
    decreases t.len() - p,
{
    let close = run_end(t, p + 1, Run::FlagChars);
    if byte_at(t, p, 0x5b) && p + 1 < close && byte_at(t, close, 0x5d) {
        lemma_run_end(t, p + 1, Run::FlagChars);
        lemma_flags_end(t, close + 1);
        assert forall|k: int| p <= k < flags_end(t, p) implies #[trigger] t[k] != 0x0a by {
            if p < k < close {
                assert(in_run(Run::FlagChars, t[k]));
            }
        }
    }
}

/// The description of an access point lies within one line: its fields
/// stand in their order, the line feed that ends it stands behind the SSID,
/// and there is none before.
pub proof fn lemma_record_in_line(t: Seq<u8>, p: int)
    ensures
        record_at(t, p) matches Some(span) ==> span.mac == p && span.within(t.len() as int)
            && t[span.ssid_end] == 0x0a && forall|k: int|
            p <= k < span.ssid_end ==> #[trigger] t[k] != 0x0a,
{
    if let Some(span) = record_at(t, p) {
        let mac = t.subrange(p, p + 17);
        let level = if byte_at(t, span.rssi, 0x2d) {
            span.rssi + 1
        } else {
            span.rssi
        };
        lemma_run_end(t, span.channel, Run::Digits);
        lemma_run_end(t, level, Run::Digits);
        lemma_flags_end(t, span.rssi_end + 1);
        lemma_run_end(t, span.ssid, Run::UpToNewline);
        assert forall|k: int| p <= k < span.ssid_end implies #[trigger] t[k] != 0x0a by {
            if k < p + 17 {
                assert(t[k] == mac[k - p]);
                assert(if (k - p) % 3 == 2 {
                    mac[k - p] == 0x3a
                } else {
                    is_hex_digit(mac[k - p])
                });
            } else if span.channel <= k < span.channel_end {
                assert(in_run(Run::Digits, t[k]));
            } else if level <= k < span.rssi_end {
                assert(in_run(Run::Digits, t[k]));
            } else if span.ssid <= k {
                assert(in_run(Run::UpToNewline, t[k]));
            }
        }
    }
}

/// The access points found are descriptions in the text, each starts
/// behind the line of the one before it, and none starts before the place
/// where the search began.
pub proof fn lemma_records_in_order(t: Seq<u8>, p: int, i: int)
    requires
        0 <= p,
        0 <= i < records_from(t, p).len(),
    ensures
        record_at(t, records_from(t, p)[i].mac) == Some(records_from(t, p)[i]),
        p <= records_from(t, p)[i].mac,
        i > 0 ==> records_from(t, p)[i - 1].ssid_end < records_from(t, p)[i].mac,
    decreases t.len() - p,
{
    if p < t.len() {
        match record_at(t, p) {
            Some(span) => {
                lemma_record_in_line(t, p);
                let rest = records_from(t, span.ssid_end + 1);
                assert(records_from(t, p) =~= seq![span] + rest);
                if i > 0 {
                    lemma_records_in_order(t, span.ssid_end + 1, i - 1);
                    assert(records_from(t, p)[i] == rest[i - 1]);
                    if i > 1 {
                        assert(records_from(t, p)[i - 1] == rest[i - 2]);
                    }
                }
            },
            None => {
                lemma_records_in_order(t, p + 1, i);
            },
        }
    }
}

} // verus!
