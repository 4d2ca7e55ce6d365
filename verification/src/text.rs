//! Text as it stands in Wayland messages: UTF-8 bytes, ended by a NUL byte.

use vstd::prelude::*;
use vstd::utf8::*;

verus! {

/// The text that `String::from_utf8_lossy` makes of bytes that are no valid UTF-8.
pub uninterp spec fn replaced_text(bytes: Seq<u8>) -> Seq<char>;

/// The text that `bytes` stand for: their UTF-8 decoding, or, where they are no valid
/// UTF-8, the decoding with each invalid part replaced.
pub open spec fn lossy_text(bytes: Seq<u8>) -> Seq<char> {
    if valid_utf8(bytes) {
        decode_utf8(bytes)
    } else {
        replaced_text(bytes)
    }
}

/// Calls `String::from_utf8_lossy`. Valid UTF-8 is decoded as it stands. In anything else
/// the invalid parts are replaced by U+FFFD, so at least one U+FFFD is in the result;
/// where they begin and end is only named, by `replaced_text`.
#[verifier::external_body]
pub(crate) fn decode_lossy(bytes: &[u8]) -> (text: String)
    ensures
        valid_utf8(bytes@) ==> text@ == decode_utf8(bytes@),
        !valid_utf8(bytes@) ==> text@ == replaced_text(bytes@),
        !valid_utf8(bytes@) ==> text@.contains('\u{FFFD}'),
{
    String::from_utf8_lossy(bytes).into_owned()
}

/// What a NUL character becomes in a text that is sent.
pub open spec fn sendable_char(c: char) -> char {
    if c == '\0' {
        '_'
    } else {
        c
    }
}

/// `text` with an underscore in place of each NUL character.
pub open spec fn without_nul(text: Seq<char>) -> Seq<char> {
    text.map_values(|c: char| sendable_char(c))
}

/// The bytes of `text` as a message carries them: no NUL but the one at the end.
pub open spec fn c_string(text: Seq<char>) -> Seq<u8> {
    encode_utf8(without_nul(text)).push(0)
}

/// What a NUL byte becomes in a text that is sent.
spec fn sendable_byte(b: u8) -> u8 {
    if b == 0 {
        0x5f
    } else {
        b
    }
}

spec fn without_nul_bytes(bytes: Seq<u8>) -> Seq<u8> {
    bytes.map_values(|b: u8| sendable_byte(b))
}

/// The only character with a NUL byte in its encoding is NUL, and that byte is all of it.
proof fn lemma_scalar_without_nul(c: char)
    ensures
        encode_scalar(sendable_char(c) as u32) == without_nul_bytes(encode_scalar(c as u32)),
{
    let s = c as u32;
    if s == 0 {
        assert((0u32 & 0x7F) as u8 == 0u8) by (bit_vector);
        assert((0x5fu32 & 0x7F) as u8 == 0x5fu8) by (bit_vector);
        assert(sendable_char(c) as u32 == 0x5f);
    } else {
        assert(0 < s <= 0x7F ==> (s & 0x7F) as u8 != 0u8) by (bit_vector);
        assert(0xC0 | ((s >> 6) & 0x1F) as u8 != 0u8) by (bit_vector);
        assert(0xE0 | ((s >> 12) & 0x0F) as u8 != 0u8) by (bit_vector);
        assert(0xF0 | ((s >> 18) & 0x7) as u8 != 0u8) by (bit_vector);
        assert(0x80 | (s & 0x3F) as u8 != 0u8) by (bit_vector);
        assert(0x80 | ((s >> 6) & 0x3F) as u8 != 0u8) by (bit_vector);
        assert(0x80 | ((s >> 12) & 0x3F) as u8 != 0u8) by (bit_vector);
    }
    assert(encode_scalar(sendable_char(c) as u32) =~= without_nul_bytes(encode_scalar(c as u32)));
}

/// Replacing NUL characters and then encoding is encoding and then replacing NUL bytes.
proof fn lemma_encode_without_nul(text: Seq<char>)
    ensures
        encode_utf8(without_nul(text)) == without_nul_bytes(encode_utf8(text)),
    decreases text.len(),
{
    if text.len() == 0 {
        assert(encode_utf8(without_nul(text)) =~= without_nul_bytes(encode_utf8(text)));
    } else {
        let first = encode_scalar(text[0] as u32);
        let rest = text.drop_first();
        lemma_scalar_without_nul(text[0]);
        lemma_encode_without_nul(rest);
        assert(without_nul(text).drop_first() =~= without_nul(rest));
        assert(without_nul_bytes(first + encode_utf8(rest)) =~= without_nul_bytes(first)
            + without_nul_bytes(encode_utf8(rest)));
    }
}

/// A text that is sent has no NUL byte but the last one.
pub proof fn law_c_string_one_nul(text: Seq<char>)
    ensures
        c_string(text).len() >= 1,
        c_string(text).last() == 0,
        forall|i: int| 0 <= i < c_string(text).len() - 1 ==> c_string(text)[i] != 0,
{
    lemma_encode_without_nul(text);
}

/// A text that is sent has the bytes of its UTF-8 encoding, and one more.
pub proof fn lemma_c_string_len(text: Seq<char>)
    ensures
        c_string(text).len() == encode_utf8(text).len() + 1,
{
    lemma_encode_without_nul(text);
}

/// Encodes `text` for a message.
pub fn encode_c_string(text: &str) -> (bytes: Vec<u8>)
    ensures
        bytes@ == c_string(text@),
{
    let source: &[u8] = text.as_bytes();
    let mut bytes: Vec<u8> = Vec::new();
    let mut i: usize = 0;
    while i < source.len()
        invariant
            i <= source@.len(),
            bytes@ == without_nul_bytes(source@.take(i as int)),
        decreases source@.len() - i,
    {
        let b: u8 = source[i];
        assert(source@.take(i + 1) =~= source@.take(i as int).push(b));
        assert(without_nul_bytes(source@.take(i as int).push(b)) =~= without_nul_bytes(
            source@.take(i as int),
        ).push(sendable_byte(b)));
        if b == 0 {
            bytes.push(0x5f);
        } else {
            bytes.push(b);
        }
        i = i + 1;
    }
    proof {
        assert(source@.take(source@.len() as int) =~= source@);
        lemma_encode_without_nul(text@);
    }
    bytes.push(0);
    bytes
}

/// The characters of `text`.
pub(crate) fn chars_of(text: &str) -> (chars: Vec<char>)
    ensures
        chars@ == text@,
{
    let mut chars: Vec<char> = Vec::new();
    for c in it: text.chars()
        invariant
            it.seq() == text@,
            chars@ == text@.take(it.index() as int),
    {
        chars.push(c);
        assert(chars@ =~= text@.take(it.index() + 1));
    }
    assert(text@.take(text@.len() as int) =~= text@);
    chars
}

/// The encoding of two texts in a row is that of the first, then that of the second.
pub proof fn lemma_encode_concat(a: Seq<char>, b: Seq<char>)
    ensures
        encode_utf8(a + b) == encode_utf8(a) + encode_utf8(b),
    decreases a.len(),
{
    if a.len() == 0 {
        assert(a + b =~= b);
        assert(encode_utf8(a) + encode_utf8(b) =~= encode_utf8(b));
    } else {
        lemma_encode_concat(a.drop_first(), b);
        assert((a + b).drop_first() =~= a.drop_first() + b);
        assert(encode_scalar(a[0] as u32) + (encode_utf8(a.drop_first()) + encode_utf8(b))
            =~= encode_utf8(a) + encode_utf8(b));
    }
}

/// The first `k + 1` characters have the bytes of the first `k`, then those of the next.
proof fn lemma_encode_next(text: Seq<char>, k: int)
    requires
        0 <= k < text.len(),
    ensures
        encode_utf8(text.take(k + 1)) == encode_utf8(text.take(k)) + encode_scalar(
            text[k] as u32,
        ),
{
    let one = seq![text[k]];
    assert(text.take(k + 1) =~= text.take(k) + one);
    lemma_encode_concat(text.take(k), one);
    assert(one.drop_first() =~= Seq::<char>::empty());
    reveal_with_fuel(encode_utf8, 2);
    assert(encode_utf8(one) =~= encode_scalar(text[k] as u32));
}

/// `text`, cut at its end, between two characters, as far as it takes for no more than `max`
/// bytes of UTF-8.
pub open spec fn fitting(text: Seq<char>, max: nat) -> Seq<char>
    decreases text.len(),
{
    if text.len() == 0 || encode_utf8(text).len() <= max {
        text
    } else {
        fitting(text.drop_last(), max)
    }
}

/// What is left of a text after the cut fits, and is the front of the text.
pub proof fn lemma_fitting(text: Seq<char>, max: nat)
    ensures
        fitting(text, max).len() <= text.len(),
        fitting(text, max) == text.take(fitting(text, max).len() as int),
        encode_utf8(fitting(text, max)).len() <= max,
    decreases text.len(),
{
    if text.len() == 0 || encode_utf8(text).len() <= max {
        assert(text.take(text.len() as int) =~= text);
    } else {
        lemma_fitting(text.drop_last(), max);
        let k = fitting(text, max).len() as int;
        assert(text.drop_last().take(k) =~= text.take(k));
    }
}

/// No more is cut than has to be: what fits of the front of a text is left.
pub proof fn lemma_fitting_longest(text: Seq<char>, max: nat, k: int)
    requires
        0 <= k <= text.len(),
        encode_utf8(text.take(k)).len() <= max,
    ensures
        k <= fitting(text, max).len(),
    decreases text.len(),
{
    if k == text.len() {
        assert(text.take(k) =~= text);
    } else if encode_utf8(text).len() > max {
        assert(text.drop_last().take(k) =~= text.take(k));
        lemma_fitting_longest(text.drop_last(), max, k);
    }
}

/// The cut is where the next character does not fit any more.
proof fn lemma_cut(text: Seq<char>, max: nat, k: int)
    requires
        0 <= k < text.len(),
        encode_utf8(text.take(k)).len() <= max,
        encode_utf8(text.take(k + 1)).len() > max,
    ensures
        fitting(text, max) == text.subrange(0, k),
{
    let n = fitting(text, max).len() as int;
    lemma_fitting(text, max);
    lemma_fitting_longest(text, max, k);
    if n > k {
        assert(text.take(n) =~= text.take(k + 1) + text.subrange(k + 1, n));
        lemma_encode_concat(text.take(k + 1), text.subrange(k + 1, n));
    }
}

/// The length of the UTF-8 encoding of `c`.
fn char_width(c: char) -> (width: usize)
    ensures
        width == encode_scalar(c as u32).len(),
{
    let scalar: u32 = c as u32;
    if scalar <= 0x7F {
        1
    } else if scalar <= 0x7FF {
        2
    } else if scalar <= 0xFFFF {
        3
    } else {
        4
    }
}

/// Cuts `text` at its end, between two characters, as far as it takes for no more than `max`
/// bytes of UTF-8.
pub fn fit_text<'a>(text: &'a str, max: usize) -> (fit: &'a str)
    ensures
        fit@ == fitting(text@, max as nat),
{
    let chars: Vec<char> = chars_of(text);
    let mut count: usize = 0;
    let mut room: usize = max;
    assert(text@.take(0) =~= Seq::<char>::empty());
    while count < chars.len()
        invariant
            chars@ == text@,
            count <= chars@.len(),
            room <= max,
            encode_utf8(text@.take(count as int)).len() == max - room,
        decreases chars@.len() - count,
    {
        let width: usize = char_width(chars[count]);
        proof {
            lemma_encode_next(text@, count as int);
        }
        if width > room {
            proof {
                lemma_cut(text@, max as nat, count as int);
            }
            return text.substring_char(0, count);
        }
        room = room - width;
        count = count + 1;
    }
    assert(text@.take(count as int) =~= text@);
    text
}

/// Whether two texts have the same characters.
pub fn same_text(a: &str, b: &str) -> (same: bool)
    ensures
        same == (a@ == b@),
{
    a.to_owned() == b.to_owned()
}

/// The decimal digit `d`.
pub open spec fn digit_char(d: nat) -> char {
    ('0' as u32 + d) as char
}

/// The decimal numeral of `n`.
pub open spec fn decimal(n: nat) -> Seq<char>
    decreases n,
{
    if n < 10 {
        seq![digit_char(n)]
    } else {
        decimal(n / 10).push(digit_char(n % 10))
    }
}

fn digit_text(d: usize) -> (text: &'static str)
    requires
        d < 10,
    ensures
        text@ == seq![digit_char(d as nat)],
{
    proof {
        reveal_strlit("0");
        reveal_strlit("1");
        reveal_strlit("2");
        reveal_strlit("3");
        reveal_strlit("4");
        reveal_strlit("5");
        reveal_strlit("6");
        reveal_strlit("7");
        reveal_strlit("8");
        reveal_strlit("9");
    }
    match d {
        0 => "0",
        1 => "1",
        2 => "2",
        3 => "3",
        4 => "4",
        5 => "5",
        6 => "6",
        7 => "7",
        8 => "8",
        _ => "9",
    }
}

/// Appends the decimal numeral of `n` to `out`.
pub fn append_decimal(out: &mut String, n: usize)
    ensures
        final(out)@ == old(out)@ + decimal(n as nat),
    decreases n,
{
    if n >= 10 {
        append_decimal(out, n / 10);
    }
    out.append(digit_text(n % 10));
}

} // verus!
