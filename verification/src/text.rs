//! Texts for people: numbers in them, and how long a text is in bytes.

use vstd::prelude::*;
use vstd::string::StringExecFns;

verus! {

/// The decimal digit of a number below ten.
pub open spec fn digit(value: nat) -> char {
    (48 + value) as char
}

/// A number in decimal digits.
pub open spec fn decimal(value: nat) -> Seq<char>
    decreases value,
{
    if value < 10 {
        seq![digit(value)]
    } else {
        decimal(value / 10).push(digit(value % 10))
    }
}

/// The number of bytes of a text in UTF-8.
pub open spec fn byte_len(text: Seq<char>) -> nat {
    vstd::utf8::encode_utf8(text).len()
}

/// The number of bytes of a text in UTF-8.
pub fn byte_length(text: &str) -> (len: usize)
    ensures
        len == byte_len(text@),
{
    text.as_bytes().len()
}

/// The character has the Unicode property White_Space.
pub open spec fn is_white_space(c: char) -> bool {
    ||| '\u{9}' <= c <= '\u{D}'
    ||| c == '\u{20}'
    ||| c == '\u{85}'
    ||| c == '\u{A0}'
    ||| c == '\u{1680}'
    ||| '\u{2000}' <= c <= '\u{200A}'
    ||| c == '\u{2028}'
    ||| c == '\u{2029}'
    ||| c == '\u{202F}'
    ||| c == '\u{205F}'
    ||| c == '\u{3000}'
}

/// Nothing but white space.
pub open spec fn is_blank(text: Seq<char>) -> bool {
    forall|i: int| 0 <= i < text.len() ==> is_white_space(#[trigger] text[i])
}

fn white_space(c: char) -> (white: bool)
    ensures
        white == is_white_space(c),
{
    ('\u{9}' <= c && c <= '\u{D}') || c == '\u{20}' || c == '\u{85}' || c == '\u{A0}' || c
        == '\u{1680}' || ('\u{2000}' <= c && c <= '\u{200A}') || c == '\u{2028}' || c
        == '\u{2029}' || c == '\u{202F}' || c == '\u{205F}' || c == '\u{3000}'
}

/// Whether there is nothing but white space.
pub fn blank(text: &str) -> (result: bool)
    ensures
        result == is_blank(text@),
{
    for c in iter: text.chars()
        invariant
            forall|i: int| 0 <= i < iter.index() ==> is_white_space(#[trigger] text@[i]),
            iter.seq() == text@,
    {
        if !white_space(c) {
            return false;
        }
    }
    true
}

/// Calls `String::from_utf8`: gives the text that the bytes encode, where they are valid UTF-8.
#[verifier::external_body]
fn decode(bytes: Vec<u8>) -> (text: Option<String>)
    ensures
        match text {
            Some(text) => vstd::utf8::valid_utf8(bytes@) && text@ == vstd::utf8::decode_utf8(
                bytes@,
            ),
            None => !vstd::utf8::valid_utf8(bytes@),
        },
{
    String::from_utf8(bytes).ok()
}

/// Every byte is an ASCII character.
pub open spec fn all_ascii(bytes: Seq<u8>) -> bool {
    forall|i: int| 0 <= i < bytes.len() ==> (#[trigger] bytes[i]) < 128
}

/// The text of ASCII characters.
pub open spec fn ascii_chars(bytes: Seq<u8>) -> Seq<char> {
    Seq::new(bytes.len(), |i: int| bytes[i] as char)
}

/// The bytes of ASCII characters.
pub open spec fn ascii_bytes(text: Seq<char>) -> Seq<u8> {
    Seq::new(text.len(), |i: int| text[i] as u8)
}

/// How ASCII texts and their bytes stand for each other.
pub proof fn lemma_ascii(bytes: Seq<u8>)
    requires
        all_ascii(bytes),
    ensures
        vstd::utf8::is_ascii_chars(ascii_chars(bytes)),
        vstd::utf8::encode_utf8(ascii_chars(bytes)) == bytes,
        vstd::utf8::valid_utf8(bytes),
        vstd::utf8::decode_utf8(bytes) == ascii_chars(bytes),
{
    let chars = ascii_chars(bytes);
    assert forall|i: int| 0 <= i < chars.len() implies (#[trigger] chars[i]) as u8 == bytes[i]
        && (chars[i] as int) < 128 by {}
    vstd::utf8::is_ascii_chars_encode_utf8(chars);
    assert(vstd::utf8::encode_utf8(chars) =~= bytes);
    vstd::utf8::encode_utf8_valid_utf8(chars);
    vstd::utf8::encode_utf8_decode_utf8(chars);
}

/// The text of ASCII characters, where there are no others.
pub fn ascii_text(bytes: &[u8]) -> (text: Option<String>)
    ensures
        match text {
            Some(text) => all_ascii(bytes@) && text@ == ascii_chars(bytes@),
            None => !all_ascii(bytes@),
        },
{
    let mut i: usize = 0;
    while i < bytes.len()
        invariant
            i <= bytes@.len(),
            forall|j: int| 0 <= j < i ==> (#[trigger] bytes@[j]) < 128,
        decreases bytes@.len() - i,
    {
        if bytes[i] >= 128 {
            return None;
        }
        i += 1;
    }
    proof {
        lemma_ascii(bytes@);
    }
    decode(crate::bytes::copy_all(bytes))
}

fn push_digit(text: &mut String, value: u64)
    requires
        value < 10,
    ensures
        final(text)@ == old(text)@.push(digit(value as nat)),
{
    proof {
        reveal_strlit("0");
        reveal_strlit("1");
        reveal_strlit("2");
        reveal_strlit("3");
        reveal_strlit("4");
        reveal_strlit("5");
        reveal_strlit("6");
        reveal_strlit("7");
        reveal_strlit("8");
        reveal_strlit("9");
    }
    let written: &str = match value {
        0 => "0",
        1 => "1",
        2 => "2",
        3 => "3",
        4 => "4",
        5 => "5",
        6 => "6",
        7 => "7",
        8 => "8",
        _ => "9",
    };
    text.append(written);
    proof {
        assert(written@ =~= seq![digit(value as nat)]);
        assert(text@ =~= old(text)@.push(digit(value as nat)));
    }
}

/// Appends a number in decimal digits.
pub fn push_decimal(text: &mut String, value: u64)
    ensures
        final(text)@ == old(text)@ + decimal(value as nat),
    decreases value,
{
    if value >= 10 {
        push_decimal(text, value / 10);
    }
    push_digit(text, value % 10);
    proof {
        assert(text@ =~= old(text)@ + decimal(value as nat));
    }
}

/// A number in decimal digits, with a sign where it is negative.
pub open spec fn signed_decimal(value: int) -> Seq<char> {
    if value < 0 {
        "-"@ + decimal((-value) as nat)
    } else {
        decimal(value as nat)
    }
}

/// Appends a number in decimal digits, with a sign where it is negative.
pub fn push_signed(text: &mut String, value: i32)
    ensures
        final(text)@ == old(text)@ + signed_decimal(value as int),
{
    if value < 0 {
        text.append("-");
        push_decimal(text, (-(value as i64)) as u64);
        proof {
            assert(text@ =~= old(text)@ + signed_decimal(value as int));
        }
    } else {
        push_decimal(text, value as u64);
    }
}

/// Bytes as decimal numbers, with a comma between them.
pub open spec fn byte_list(bytes: Seq<u8>) -> Seq<char>
    decreases bytes.len(),
{
    if bytes.len() == 0 {
        Seq::empty()
    } else if bytes.len() == 1 {
        decimal(bytes[0] as nat)
    } else {
        byte_list(bytes.drop_last()) + ", "@ + decimal(bytes.last() as nat)
    }
}

/// Appends bytes as decimal numbers, with a comma between them.
pub fn push_byte_list(text: &mut String, bytes: &[u8])
    ensures
        final(text)@ == old(text)@ + byte_list(bytes@),
{
    let mut i: usize = 0;
    while i < bytes.len()
        invariant
            i <= bytes@.len(),
            text@ == old(text)@ + byte_list(bytes@.take(i as int)),
        decreases bytes@.len() - i,
    {
        let ghost before = text@;
        if i > 0 {
            text.append(", ");
        }
        push_decimal(text, bytes[i] as u64);
        proof {
            let longer = bytes@.take(i + 1);
            assert(longer.drop_last() =~= bytes@.take(i as int));
            assert(text@ =~= old(text)@ + byte_list(longer));
        }
        i += 1;
    }
    proof {
        assert(bytes@.take(i as int) =~= bytes@);
        assert(text@ =~= old(text)@ + byte_list(bytes@));
    }
}

/// One text behind the other.
pub fn joined(before: &str, after: &str) -> (text: String)
    ensures
        text@ == before@ + after@,
{
    let mut text: String = before.to_owned();
    text.append(after);
    text
}

/// Whether a text holds a NUL.
pub fn contains_nul(text: &str) -> (found: bool)
    ensures
        found == text@.contains('\0'),
{
    for c in iter: text.chars()
        invariant
            forall|i: int| 0 <= i < iter.index() ==> #[trigger] text@[i] != '\0',
            iter.seq() == text@,
    {
        if c == '\0' {
            proof {
                assert(text@[iter.index() as int] == '\0');
            }
            return true;
        }
    }
    false
}

/// A hexadecimal digit, with small letters.
pub open spec fn hex_digit(value: nat) -> char {
    if value < 10 {
        digit(value)
    } else {
        (('a' as nat + value - 10) as nat) as char
    }
}

/// The last `digits` hexadecimal digits of a number.
pub open spec fn hexadecimal(value: nat, digits: nat) -> Seq<char>
    decreases digits,
{
    if digits == 0 {
        Seq::empty()
    } else {
        hexadecimal(value / 16, (digits - 1) as nat).push(hex_digit(value % 16))
    }
}

/// Appends the last `digits` hexadecimal digits of a number.
pub fn push_hexadecimal(text: &mut String, value: u64, digits: usize)
    ensures
        final(text)@ == old(text)@ + hexadecimal(value as nat, digits as nat),
    decreases digits,
{
    if digits > 0 {
        push_hexadecimal(text, value / 16, digits - 1);
        let last: u64 = value % 16;
        if last < 10 {
            push_digit(text, last);
        } else if last == 10 {
            text.append("a");
        } else if last == 11 {
            text.append("b");
        } else if last == 12 {
            text.append("c");
        } else if last == 13 {
            text.append("d");
        } else if last == 14 {
            text.append("e");
        } else {
            text.append("f");
        }
        proof {
            reveal_strlit("a");
            reveal_strlit("b");
            reveal_strlit("c");
            reveal_strlit("d");
            reveal_strlit("e");
            reveal_strlit("f");
            assert(text@ =~= old(text)@ + hexadecimal(value as nat, digits as nat));
        }
    } else {
        proof {
            assert(text@ =~= old(text)@ + hexadecimal(value as nat, digits as nat));
        }
    }
}

/// The value that some decimal digits stand for.
pub open spec fn digits_value(text: Seq<char>) -> int
    decreases text.len(),
{
    if text.len() == 0 {
        0
    } else {
        10 * digits_value(text.drop_last()) + (text.last() as int - 48)
    }
}

/// A number in decimal digits stands for the number, and has no zero in front.
pub proof fn law_decimal_stands_for_the_number(value: nat)
    ensures
        digits_value(decimal(value)) == value,
        decimal(value).len() >= 1,
        value > 0 ==> decimal(value)[0] != '0',
        forall|i: int|
            0 <= i < decimal(value).len() ==> '0' <= #[trigger] decimal(value)[i] <= '9',
    decreases value,
{
    if value < 10 {
        reveal_with_fuel(digits_value, 2);
        assert(decimal(value).drop_last() =~= Seq::empty());
    } else {
        law_decimal_stands_for_the_number(value / 10);
        assert(decimal(value).drop_last() =~= decimal(value / 10));
        assert(decimal(value)[0] == decimal(value / 10)[0]);
    }
}

} // verus!
