//! Hexadecimal text.
use vstd::prelude::*;
use vstd::string::StrSliceExecFns;
use vstd::utf8::encode_utf8;

verus! {

/// The digit of a number below sixteen.
pub open spec fn hex_digit(value: int) -> char {
    if value < 10 {
        (value + 0x30) as char
    } else {
        (value + 0x57) as char
    }
}

/// The number of a digit in lower case.
pub open spec fn hex_value(c: char) -> Option<int> {
    if '0' <= c && c <= '9' {
        Some(c as int - 0x30)
    } else if 'a' <= c && c <= 'f' {
        Some(c as int - 0x57)
    } else {
        None
    }
}

/// Two digits for each byte.
pub open spec fn hex_text(bytes: Seq<u8>) -> Seq<char> {
    Seq::new(
        2 * bytes.len(),
        |i: int|
            hex_digit(
                if i % 2 == 0 {
                    bytes[i / 2] as int / 16
                } else {
                    bytes[i / 2] as int % 16
                },
            ),
    )
}

fn digit_byte(value: u8) -> (r: u8)
    requires
        value < 16,
    ensures
        r as char == hex_digit(value as int),
        r < 128,
{
    if value < 10 {
        value + 0x30
    } else {
        value + 0x57
    }
}

/// Two digits for each byte.
pub fn hex(bytes: &[u8]) -> (r: String)
    ensures
        r@ == hex_text(bytes@),
{
    let mut out: Vec<u8> = Vec::new();
    let mut i: usize = 0;
    while i < bytes.len()
        invariant
            i <= bytes@.len(),
            out@.len() == 2 * i,
            forall|j: int| 0 <= j < out@.len() ==> #[trigger] out@[j] < 128 && out@[j] as char == hex_text(
                bytes@,
            )[j],
        decreases bytes@.len() - i,
    {
        let ghost before = out@;
        out.push(digit_byte(bytes[i] / 16));
        out.push(digit_byte(bytes[i] % 16));
        proof {
            assert forall|j: int| 0 <= j < out@.len() implies #[trigger] out@[j] < 128 && out@[j] as char
                == hex_text(bytes@)[j] by {
                if j < before.len() {
                    assert(out@[j] == before[j]);
                }
            }
        }
        i = i + 1;
    }
    let ghost text = hex_text(bytes@);
    proof {
        broadcast use vstd::utf8::group_utf8_lib;

        lemma_hex_is_ascii(bytes@);
        vstd::utf8::is_ascii_chars_encode_utf8(text);
        assert(encode_utf8(text) =~= out@);
        vstd::utf8::encode_utf8_valid_utf8(text);
        vstd::utf8::encode_utf8_decode_utf8(text);
    }
    match crate::bytes::text_from_utf8(out) {
        Some(text) => text,
        None => String::new(),
    }
}

proof fn lemma_hex_is_ascii(bytes: Seq<u8>)
    ensures
        vstd::utf8::is_ascii_chars(hex_text(bytes)),
{
}

/// Whether a text is sixteen bytes in hexadecimal digits.
pub open spec fn hex_id_text(text: Seq<char>) -> bool {
    text.len() == 32 && forall|i: int| 0 <= i < text.len() ==> hex_value(#[trigger] text[i]) is Some
}

/// The sixteen bytes that a text holds in hexadecimal digits.
pub open spec fn hex_id(text: Seq<char>) -> Seq<u8> {
    Seq::new(
        16,
        |i: int| (hex_value(text[2 * i])->0 * 16 + hex_value(text[2 * i + 1])->0) as u8,
    )
}

fn digit_value(c: char) -> (r: Option<u8>)
    ensures
        match r {
            Some(v) => hex_value(c) == Some(v as int) && v < 16,
            None => hex_value(c) is None,
        },
{
    if '0' <= c && c <= '9' {
        Some((c as u32 - 0x30) as u8)
    } else if 'a' <= c && c <= 'f' {
        Some((c as u32 - 0x57) as u8)
    } else {
        None
    }
}

/// The sixteen bytes that a text holds in hexadecimal digits.
pub fn decode_hex_id(text: &str) -> (r: Option<[u8; 16]>)
    ensures
        match r {
            Some(id) => hex_id_text(text@) && id@ == hex_id(text@),
            None => !hex_id_text(text@),
        },
{
    if text.unicode_len() != 32 {
        return None;
    }
    let mut id = [0u8; 16];
    let mut i: usize = 0;
    while i < 16
        invariant
            i <= 16,
            text@.len() == 32,
            forall|j: int| 0 <= j < 2 * i ==> hex_value(#[trigger] text@[j]) is Some,
            forall|j: int| 0 <= j < i ==> #[trigger] id@[j] == hex_id(text@)[j],
        decreases 16 - i,
    {
        let high: u8 = match digit_value(text.get_char(2 * i)) {
            Some(v) => v,
            None => return None,
        };
        let low: u8 = match digit_value(text.get_char(2 * i + 1)) {
            Some(v) => v,
            None => return None,
        };
        id[i] = high * 16 + low;
        i = i + 1;
    }
    assert(id@ =~= hex_id(text@));
    Some(id)
}

/// The hexadecimal form of sixteen bytes is read back.
pub proof fn law_hex_id_round_trip(id: Seq<u8>)
    requires
        id.len() == 16,
    ensures
        hex_id_text(hex_text(id)),
        hex_id(hex_text(id)) == id,
{
    let text = hex_text(id);
    assert forall|i: int| 0 <= i < text.len() implies hex_value(#[trigger] text[i]) is Some by {}
    assert forall|i: int| 0 <= i < 16 implies #[trigger] hex_id(text)[i] == id[i] by {
        assert((2 * i) / 2 == i && (2 * i) % 2 == 0 && (2 * i + 1) / 2 == i && (2 * i + 1) % 2 == 1);
    }
    assert(hex_id(text) =~= id);
}

/// A byte is written as two digits, the higher half first; the digits are those of
/// decimal numbers and the letters from `a` to `f`.
pub proof fn law_bytes_are_two_digits(bytes: Seq<u8>, i: int)
    requires
        0 <= i < bytes.len(),
    ensures
        hex_text(bytes).len() == 2 * bytes.len(),
        hex_value(hex_text(bytes)[2 * i]) == Some(bytes[i] as int / 16),
        hex_value(hex_text(bytes)[2 * i + 1]) == Some(bytes[i] as int % 16),
{
    assert((2 * i) / 2 == i && (2 * i) % 2 == 0 && (2 * i + 1) / 2 == i && (2 * i + 1) % 2 == 1);
}

/// A character is a digit for its place among the decimal digits, or for its place
/// among the small letters after them; no other character is a digit.
pub proof fn law_digits_are_small(c: char)
    ensures
        ({
            let n = c as int;
            &&& 0x30 <= n <= 0x39 ==> hex_value(c) == Some(n - 0x30)
            &&& 0x61 <= n <= 0x66 ==> hex_value(c) == Some(n - 0x61 + 10)
            &&& !(0x30 <= n <= 0x39) && !(0x61 <= n <= 0x66) ==> hex_value(c) is None
        }),
{
}

/// A text of thirty-two digits is sixteen bytes, two digits for each; no other text
/// is.
pub proof fn law_identifiers_are_sixteen_bytes(text: &str, r: Option<[u8; 16]>)
    requires
        call_ensures(decode_hex_id, (text,), r),
    ensures
        r is Some <==> text@.len() == 32 && forall|i: int|
            0 <= i < 32 ==> hex_value(#[trigger] text@[i]) is Some,
        r is Some ==> hex_text(r->0@) == text@,
{
    if r is Some {
        let id = r->0;
        let written = hex_text(id@);
        assert forall|i: int| 0 <= i < 32 implies #[trigger] written[i] == text@[i] by {
            let k = i / 2;
            assert(hex_value(text@[2 * k]) is Some && hex_value(text@[2 * k + 1]) is Some);
            assert(id@[k] == hex_id(text@)[k]);
            assert(id@[k] == hex_value(text@[2 * k])->0 * 16 + hex_value(text@[2 * k + 1])->0);
            if i % 2 == 0 {
                assert(i == 2 * k);
            } else {
                assert(i == 2 * k + 1);
            }
        }
        assert(written =~= text@);
    }
}

} // verus!
