//! What holds of the texts that messages carry.

use crate::text;
use vstd::prelude::*;
use vstd::utf8::*;

verus! {

/// Each character of a text is sent as it is, but for NUL, which is sent as an underscore.
pub proof fn law_nul_becomes_underscore(text: Seq<char>)
    ensures
        text::without_nul(text).len() == text.len(),
        forall|i: int|
            0 <= i < text.len() ==> #[trigger] text::without_nul(text)[i] == if text[i] == '\0' {
                '_'
            } else {
                text[i]
            },
{
}

/// A text without NUL is sent as its UTF-8 encoding and one NUL byte.
pub proof fn law_c_string_is_utf8(text: Seq<char>)
    requires
        !text.contains('\0'),
    ensures
        text::c_string(text) == encode_utf8(text).push(0u8),
{
    assert forall|i: int| 0 <= i < text.len() implies #[trigger] text[i] != '\0' by {
        assert(text.contains(text[i]));
    }
    assert(text::without_nul(text) =~= text);
}

/// A NUL in a text makes no difference from an underscore in its place.
pub proof fn law_c_string_nul_or_underscore(text: Seq<char>, other: Seq<char>)
    requires
        text.len() == other.len(),
        forall|i: int|
            0 <= i < text.len() ==> other[i] == if text[i] == '\0' {
                '_'
            } else {
                #[trigger] text[i]
            },
    ensures
        text::c_string(text) == encode_utf8(other).push(0u8),
{
    assert(text::without_nul(text) =~= other);
}

/// The cut leaves the front of a text, as many characters of it as there is room for and
/// not one more.
pub proof fn law_cut_is_the_longest_front(text: Seq<char>, max: nat, k: int)
    requires
        0 <= k <= text.len(),
    ensures
        text::fitting(text, max).is_prefix_of(text),
        k <= text::fitting(text, max).len() <==> encode_utf8(text.take(k)).len() <= max,
{
    let n = text::fitting(text, max).len() as int;
    text::lemma_fitting(text, max);
    if encode_utf8(text.take(k)).len() <= max {
        text::lemma_fitting_longest(text, max, k);
    }
    if k <= n {
        assert(text.take(n) =~= text.take(k) + text.subrange(k, n));
        text::lemma_encode_concat(text.take(k), text.subrange(k, n));
    }
}

/// The UTF-8 encoding of a text stands for that text, and bytes that are no UTF-8 stand for
/// what is made of them by replacing the invalid parts.
pub proof fn law_bytes_stand_for_text(text: Seq<char>, bytes: Seq<u8>)
    ensures
        text::lossy_text(encode_utf8(text)) == text,
        valid_utf8(bytes) ==> encode_utf8(text::lossy_text(bytes)) == bytes,
        !valid_utf8(bytes) ==> text::lossy_text(bytes) == text::replaced_text(bytes),
{
    encode_utf8_valid_utf8(text);
    encode_utf8_decode_utf8(text);
    if valid_utf8(bytes) {
        decode_utf8_encode_utf8(bytes);
    }
}

/// The number that a row of decimal digits stands for.
pub open spec fn numeral_value(digits: Seq<char>) -> int
    decreases digits.len(),
{
    if digits.len() == 0 {
        0
    } else {
        10 * numeral_value(digits.drop_last()) + (digits.last() as u32 - '0' as u32)
    }
}

/// The decimal numeral of a number is made of decimal digits, stands for that number, and
/// does not begin with a zero unless the number is zero.
pub proof fn law_decimal_numeral(n: nat)
    ensures
        numeral_value(text::decimal(n)) == n,
        text::decimal(n).len() > 0,
        forall|i: int|
            0 <= i < text::decimal(n).len() ==> '0' <= #[trigger] text::decimal(n)[i] <= '9',
        text::decimal(n)[0] == '0' ==> n == 0 && text::decimal(n).len() == 1,
    decreases n,
{
    let digits = text::decimal(n);
    if n < 10 {
        assert(digits.drop_last() =~= Seq::<char>::empty());
        assert(numeral_value(digits.drop_last()) == 0);
    } else {
        law_decimal_numeral(n / 10);
        assert(digits.drop_last() =~= text::decimal(n / 10));
        assert(digits[0] == text::decimal(n / 10)[0]);
        assert forall|i: int| 0 <= i < digits.len() implies '0' <= #[trigger] digits[i]
            <= '9' by {
            if i < digits.len() - 1 {
                assert(digits[i] == text::decimal(n / 10)[i]);
            }
        }
    }
}

} // verus!
