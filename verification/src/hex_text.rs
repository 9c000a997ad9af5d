//! Bytes written as hexadecimal digits, and display names that arrive in that
//! form.
use crate::text;
use vstd::prelude::*;
use vstd::utf8::*;

verus! {

/// The error of `hex::decode`, carried as an opaque value.
#[verifier::external_type_specification]
#[verifier::external_body]
pub struct ExFromHexError(hex::FromHexError);

/// The error of `String::from_utf8`, carried as an opaque value.
#[verifier::external_type_specification]
#[verifier::external_body]
pub struct ExFromUtf8Error(std::string::FromUtf8Error);

/// `String::from_utf8` succeeds exactly on valid UTF-8 and then returns the
/// text that the bytes encode.
pub assume_specification[ String::from_utf8 ](vec: Vec<u8>) -> (res: Result<
    String,
    std::string::FromUtf8Error,
>)
    ensures
        res is Ok <==> valid_utf8(vec@),
        res matches Ok(s) ==> s@ == decode_utf8(vec@),
;

/// The lowercase hexadecimal digit of a value below sixteen.
pub open spec fn hex_digit(value: int) -> char {
    if value < 10 {
        ('0' as u32 + value) as char
    } else {
        ('a' as u32 + (value - 10)) as char
    }
}

/// Whether the character is a hexadecimal digit, in either case.
pub open spec fn is_hex_digit(c: char) -> bool {
    '0' <= c <= '9' || 'a' <= c <= 'f' || 'A' <= c <= 'F'
}

/// The value of a hexadecimal digit.
pub open spec fn hex_value(c: char) -> int {
    if '0' <= c <= '9' {
        c as u32 - '0' as u32
    } else if 'a' <= c <= 'f' {
        c as u32 - 'a' as u32 + 10
    } else {
        c as u32 - 'A' as u32 + 10
    }
}

/// Two lowercase digits for each byte, the high half first.
pub open spec fn encoded(bytes: Seq<u8>) -> Seq<char> {
    Seq::new(
        2 * bytes.len(),
        |i: int|
            if i % 2 == 0 {
                hex_digit(bytes[i / 2] as int / 16)
            } else {
                hex_digit(bytes[i / 2] as int % 16)
            },
    )
}

/// Whether the text is an even number of hexadecimal digits.
pub open spec fn is_encoded(text: Seq<char>) -> bool {
    &&& text.len() % 2 == 0
    &&& forall|i: int| 0 <= i < text.len() ==> is_hex_digit(#[trigger] text[i])
}

/// The bytes that pairs of hexadecimal digits write.
pub open spec fn decoded(text: Seq<char>) -> Seq<u8> {
    Seq::new(
        text.len() / 2,
        |i: int| (16 * hex_value(text[2 * i]) + hex_value(text[2 * i + 1])) as u8,
    )
}

/// Whether the text is `0x` followed by the hexadecimal form of UTF-8.
pub open spec fn is_hex_name(text: Seq<char>) -> bool {
    &&& text::begins_with(text, "0x"@)
    &&& is_encoded(text.skip(2))
    &&& valid_utf8(decoded(text.skip(2)))
}

/// The display name that the text stands for: the decoded text where it is a
/// hexadecimal name, else the text itself.
pub open spec fn display_text(text: Seq<char>) -> Seq<char> {
    if is_hex_name(text) {
        decode_utf8(decoded(text.skip(2)))
    } else {
        text
    }
}

/// `hex::encode` writes each byte as two lowercase digits.
#[verifier::external_body]
pub(crate) fn encode(bytes: &[u8; 16]) -> (text: String)
    ensures
        text@ == encoded(bytes@),
{
    hex::encode(bytes)
}

/// `hex::decode` succeeds exactly on an even number of hexadecimal digits, in
/// either case, and then returns the byte of each pair.
#[verifier::external_body]
fn decode(text: &str) -> (bytes: Result<Vec<u8>, hex::FromHexError>)
    ensures
        bytes is Ok <==> is_encoded(text@),
        bytes matches Ok(b) ==> b@ == decoded(text@),
{
    hex::decode(text)
}

/// Display names with emojis are represented in hexadecimal form. Decodes the
/// name if it can be decoded, and leaves it as it is if it cannot.
pub fn try_decode_hex(display_name: &mut String)
    ensures
        final(display_name)@ == display_text(old(display_name)@),
{
    let chars = text::to_chars(display_name.as_str());
    proof {
        reveal_strlit("0x");
    }
    if text::starts_with(&chars, "0x") {
        let mut digits: Vec<char> = Vec::new();
        let mut i: usize = 2;
        while i < chars.len()
            invariant
                2 <= i <= chars@.len(),
                digits@ == chars@.subrange(2, i as int),
            decreases chars@.len() - i,
        {
            digits.push(chars[i]);
            i += 1;
            assert(chars@.subrange(2, i as int) == chars@.subrange(2, i - 1).push(chars@[i - 1]));
        }
        assert(digits@ == chars@.skip(2));
        if let Ok(bytes) = decode(text::from_chars(&digits).as_str()) {
            if let Ok(name) = String::from_utf8(bytes) {
                *display_name = name;
            }
        }
    }
}

/// A character whose lower case is a digit is a digit of the same value.
proof fn lemma_hex_digit_of_either_case(c: char, value: int)
    requires
        0 <= value < 16,
        text::ascii_lower(c) == hex_digit(value),
    ensures
        is_hex_digit(c),
        hex_value(c) == value,
{
    if 'A' <= c <= 'Z' {
        assert(text::ascii_lower(c) as u32 == c as u32 + 32);
    }
}

/// Decoding the hexadecimal form of some bytes gives the bytes back, whatever
/// the case of each digit.
pub proof fn law_decoding_ignores_case(bytes: Seq<u8>, digits: Seq<char>)
    requires
        text::ascii_lowercase(digits) == encoded(bytes),
    ensures
        is_encoded(digits),
        decoded(digits) == bytes,
{
    assert(digits.len() == encoded(bytes).len());
    assert forall|i: int| 0 <= i < digits.len() implies is_hex_digit(#[trigger] digits[i])
        && hex_value(digits[i]) == if i % 2 == 0 {
        bytes[i / 2] as int / 16
    } else {
        bytes[i / 2] as int % 16
    } by {
        assert(text::ascii_lowercase(digits)[i] == text::ascii_lower(digits[i]));
        assert(0 <= i < 2 * bytes.len());
        if i % 2 == 0 {
            lemma_hex_digit_of_either_case(digits[i], bytes[i / 2] as int / 16);
        } else {
            lemma_hex_digit_of_either_case(digits[i], bytes[i / 2] as int % 16);
        }
    }
    assert forall|i: int| 0 <= i < bytes.len() implies decoded(digits)[i] == bytes[i] by {
        assert((2 * i) / 2 == i && (2 * i + 1) / 2 == i);
        assert(hex_value(digits[2 * i]) == bytes[i] as int / 16);
        assert(hex_value(digits[2 * i + 1]) == bytes[i] as int % 16);
    }
    assert(decoded(digits) =~= bytes);
}

/// Decoding the hexadecimal form of some bytes gives the bytes back.
pub proof fn law_decoded_undoes_encoded(bytes: Seq<u8>)
    ensures
        is_encoded(encoded(bytes)),
        decoded(encoded(bytes)) == bytes,
{
    assert(text::ascii_lowercase(encoded(bytes)) =~= encoded(bytes));
    law_decoding_ignores_case(bytes, encoded(bytes));
}

/// A name written as `0x` and the hexadecimal form of its UTF-8 bytes is read
/// as the name, whatever characters it holds and whatever the case of each
/// digit.
pub proof fn law_hex_name_is_decoded(name: Seq<char>, digits: Seq<char>)
    requires
        text::ascii_lowercase(digits) == encoded(encode_utf8(name)),
    ensures
        display_text("0x"@ + digits) == name,
{
    reveal_strlit("0x");
    let written = "0x"@ + digits;
    law_decoding_ignores_case(encode_utf8(name), digits);
    assert(written.take(2) =~= "0x"@);
    assert(written.skip(2) =~= digits);
    encode_utf8_valid_utf8(name);
    encode_utf8_decode_utf8(name);
}

/// A name that does not begin with `0x` is never changed.
pub proof fn law_plain_name_is_kept(name: Seq<char>)
    requires
        !text::begins_with(name, "0x"@),
    ensures
        display_text(name) == name,
{
}

/// A name that begins with `0x` but goes on with anything else than an even
/// number of hexadecimal digits, or with digits of bytes that are no UTF-8,
/// is never changed.
pub proof fn law_undecodable_name_is_kept(digits: Seq<char>)
    requires
        digits.len() % 2 != 0 || (exists|i: int|
            0 <= i < digits.len() && !is_hex_digit(#[trigger] digits[i])) || !valid_utf8(
            decoded(digits),
        ),
    ensures
        display_text("0x"@ + digits) == "0x"@ + digits,
{
    reveal_strlit("0x");
    assert(("0x"@ + digits).skip(2) =~= digits);
}

} // verus!
