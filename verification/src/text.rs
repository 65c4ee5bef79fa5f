//! Small tools on bytes and text that the other modules share.

use vstd::prelude::*;
use vstd::utf8::encode_utf8;
use vstd::utf8::encode_utf8_decode_utf8;
use vstd::utf8::valid_utf8;

verus! {

/// Whether two byte strings are the same.
pub fn bytes_equal(a: &[u8], b: &[u8]) -> (same: bool)
    ensures
        same == (a@ == b@),
{
    if a.len() != b.len() {
        return false;
    }
    let mut i: usize = 0;
    while i < a.len()
        invariant
            i <= a@.len(),
            a@.len() == b@.len(),
            forall|k: int| 0 <= k < i ==> a@[k] == b@[k],
        decreases a@.len() - i,
    {
        if a[i] != b[i] {
            return false;
        }
        i = i + 1;
    }
    assert(a@ =~= b@);
    true
}

/// Whether two texts are the same.
pub fn str_equal(a: &str, b: &str) -> (same: bool)
    ensures
        same == (a@ == b@),
{
    proof {
        encode_utf8_decode_utf8(a@);
        encode_utf8_decode_utf8(b@);
    }
    bytes_equal(a.as_bytes(), b.as_bytes())
}

/// `String::push` appends one character to the text.
pub assume_specification[ String::push ](text: &mut String, ch: char)
    ensures
        final(text)@ == old(text)@.push(ch),
;

/// The characters of a text.
pub fn str_chars(s: &str) -> (chars: Vec<char>)
    ensures
        chars@ == s@,
{
    let mut chars: Vec<char> = Vec::new();
    for c in it: s.chars()
        invariant
            it.seq() == s@,
            chars@ == s@.take(it.index() as int),
    {
        chars.push(c);
        assert(s@.take(it.index() + 1) =~= s@.take(it.index() as int).push(c));
    }
    assert(s@.take(s@.len() as int) =~= s@);
    chars
}

/// The character that stands for `byte` where `byte` is ASCII.
pub open spec fn ascii_char(byte: u8) -> char {
    byte as char
}

/// The text that the ASCII bytes `bytes` stand for.
pub open spec fn ascii_text(bytes: Seq<u8>) -> Seq<char> {
    Seq::new(bytes.len(), |i: int| ascii_char(bytes[i]))
}

/// The hexadecimal digit for `nibble`, with capital or small letters.
pub open spec fn hex_digit(nibble: int, upper: bool) -> char {
    if nibble < 10 {
        (0x30 + nibble) as char
    } else if upper {
        (0x41 + nibble - 10) as char
    } else {
        (0x61 + nibble - 10) as char
    }
}

/// The two hexadecimal digits of `byte`.
pub open spec fn hex_pair(byte: u8, upper: bool) -> Seq<char> {
    seq![hex_digit(byte as int / 16, upper), hex_digit(byte as int % 16, upper)]
}

/// The hexadecimal digit for `nibble`.
pub(crate) fn hex_digit_char(nibble: u8, upper: bool) -> (digit: char)
    requires
        nibble < 16,
    ensures
        digit == hex_digit(nibble as int, upper),
{
    let code: u8 = if nibble < 10 {
        0x30 + nibble
    } else if upper {
        0x41 + (nibble - 10)
    } else {
        0x61 + (nibble - 10)
    };
    code as char
}

/// Appends the two hexadecimal digits of `byte` to `text`.
pub fn push_hex_pair(text: &mut String, byte: u8, upper: bool)
    ensures
        final(text)@ == old(text)@ + hex_pair(byte, upper),
{
    text.push(hex_digit_char(byte / 16, upper));
    text.push(hex_digit_char(byte % 16, upper));
    assert(text@ =~= old(text)@ + hex_pair(byte, upper));
}

/// Appends the ASCII bytes `bytes[from..to]` to `text`, as characters.
pub(crate) fn push_ascii(text: &mut String, bytes: &[u8], from: usize, to: usize)
    requires
        from <= to <= bytes@.len(),
    ensures
        final(text)@ == old(text)@ + ascii_text(bytes@.subrange(from as int, to as int)),
{
    let mut i: usize = from;
    while i < to
        invariant
            from <= i <= to <= bytes@.len(),
            text@ == old(text)@ + ascii_text(bytes@.subrange(from as int, i as int)),
        decreases to - i,
    {
        text.push(bytes[i] as char);
        assert(text@ =~= old(text)@ + ascii_text(bytes@.subrange(from as int, i + 1)));
        i = i + 1;
    }
}

/// Whether the first `k` bytes of `bytes` are the longest start of `bytes`
/// that is valid UTF-8.
pub open spec fn is_valid_up_to(bytes: Seq<u8>, k: int) -> bool {
    &&& 0 <= k <= bytes.len()
    &&& valid_utf8(bytes.take(k))
    &&& forall|j: int| k < j <= bytes.len() ==> !valid_utf8(#[trigger] bytes.take(j))
}

/// `core::str::from_utf8` checks that `bytes` are valid UTF-8 and hands
/// them back as text, which holds the very same bytes. Where they are not
/// valid, its error tells up to which index they are: the largest index at
/// which the bytes before it are valid UTF-8.
#[verifier::external_body]
pub(crate) fn decode_or_valid_up_to<'a>(bytes: &'a [u8]) -> (res: Result<&'a str, usize>)
    ensures
        match res {
            Ok(text) => valid_utf8(bytes@) && encode_utf8(text@) == bytes@,
            Err(good) => !valid_utf8(bytes@) && is_valid_up_to(bytes@, good as int),
        },
{
    match core::str::from_utf8(bytes) {
        Ok(text) => Ok(text),
        Err(e) => Err(e.valid_up_to()),
    }
}

/// Whether `chars[from..to]` is the text `expected`.
pub(crate) fn chars_equal(chars: &Vec<char>, from: usize, to: usize, expected: &str) -> (same: bool)
    requires
        from <= to <= chars@.len(),
    ensures
        same == (chars@.subrange(from as int, to as int) == expected@),
{
    let other: Vec<char> = str_chars(expected);
    if other.len() != to - from {
        return false;
    }
    let mut i: usize = 0;
    while i < other.len()
        invariant
            from <= to <= chars@.len(),
            other@.len() == to - from,
            i <= other@.len(),
            other@ == expected@,
            forall|k: int| 0 <= k < i ==> chars@[from + k] == other@[k],
        decreases other@.len() - i,
    {
        if chars[from + i] != other[i] {
            assert(chars@.subrange(from as int, to as int)[i as int] != expected@[i as int]);
            return false;
        }
        i = i + 1;
    }
    assert(chars@.subrange(from as int, to as int) =~= expected@);
    true
}

/// Appends the characters `chars[from..to]` to `text`.
pub(crate) fn push_chars(text: &mut String, chars: &Vec<char>, from: usize, to: usize)
    requires
        from <= to <= chars@.len(),
    ensures
        final(text)@ == old(text)@ + chars@.subrange(from as int, to as int),
{
    let mut i: usize = from;
    assert(text@ =~= old(text)@ + chars@.subrange(from as int, from as int));
    while i < to
        invariant
            from <= i <= to <= chars@.len(),
            text@ == old(text)@ + chars@.subrange(from as int, i as int),
        decreases to - i,
    {
        text.push(chars[i]);
        assert(text@ =~= old(text)@ + chars@.subrange(from as int, i + 1));
        i = i + 1;
    }
}

/// Whether `c` is white space, as Unicode defines it.
pub open spec fn is_space(c: char) -> bool {
    let code = c as int;
    ||| 0x09 <= code <= 0x0d
    ||| code == 0x20
    ||| code == 0x85
    ||| code == 0xa0
    ||| code == 0x1680
    ||| 0x2000 <= code <= 0x200a
    ||| code == 0x2028
    ||| code == 0x2029
    ||| code == 0x202f
    ||| code == 0x205f
    ||| code == 0x3000
}

/// `s` without the white space at its start and at its end.
pub open spec fn trimmed(s: Seq<char>) -> Seq<char>
    decreases s.len(),
{
    if s.len() > 0 && is_space(s.first()) {
        trimmed(s.drop_first())
    } else if s.len() > 0 && is_space(s.last()) {
        trimmed(s.drop_last())
    } else {
        s
    }
}

/// What is left of `s` between white space at both ends is `s` trimmed.
pub proof fn lemma_trimmed(s: Seq<char>, from: int, to: int)
    requires
        0 <= from <= to <= s.len(),
        forall|k: int| 0 <= k < from ==> is_space(#[trigger] s[k]),
        forall|k: int| to <= k < s.len() ==> is_space(#[trigger] s[k]),
        from < to ==> !is_space(s[from]) && !is_space(s[to - 1]),
    ensures
        trimmed(s) == s.subrange(from, to),
    decreases s.len(),
{
    if s.len() == 0 {
        assert(s.subrange(from, to) =~= s);
    } else if is_space(s.first()) {
        let rest = s.drop_first();
        if from == 0 {
            assert(to == 0);
            lemma_trimmed(rest, 0, 0);
            assert(rest.subrange(0, 0) =~= s.subrange(from, to));
        } else {
            lemma_trimmed(rest, from - 1, to - 1);
            assert(rest.subrange(from - 1, to - 1) =~= s.subrange(from, to));
        }
    } else if is_space(s.last()) {
        let rest = s.drop_last();
        assert(from == 0);
        assert(to < s.len());
        lemma_trimmed(rest, from, to);
        assert(rest.subrange(from, to) =~= s.subrange(from, to));
    } else {
        assert(from == 0 && to == s.len());
        assert(s.subrange(from, to) =~= s);
    }
}

fn is_space_char(c: char) -> (space: bool)
    ensures
        space == is_space(c),
{
    let code: u32 = c as u32;
    (0x09 <= code && code <= 0x0d) || code == 0x20 || code == 0x85 || code == 0xa0 || code
        == 0x1680 || (0x2000 <= code && code <= 0x200a) || code == 0x2028 || code == 0x2029
        || code == 0x202f || code == 0x205f || code == 0x3000
}

/// Whether `text`, without the white space at its start and at its end, is
/// `expected`.
pub fn trimmed_equal(text: &str, expected: &str) -> (same: bool)
    ensures
        same == (trimmed(text@) == expected@),
{
    let chars: Vec<char> = str_chars(text);
    let mut from: usize = 0;
    while from < chars.len() && is_space_char(chars[from])
        invariant
            from <= chars@.len(),
            forall|k: int| 0 <= k < from ==> is_space(#[trigger] chars@[k]),
        decreases chars@.len() - from,
    {
        from = from + 1;
    }
    let mut to: usize = chars.len();
    while to > from && is_space_char(chars[to - 1])
        invariant
            from <= to <= chars@.len(),
            forall|k: int| to <= k < chars@.len() ==> is_space(#[trigger] chars@[k]),
        decreases to,
    {
        to = to - 1;
    }
    proof {
        lemma_trimmed(chars@, from as int, to as int);
    }
    chars_equal(&chars, from, to, expected)
}

} // verus!
