//! Token identifiers and their textual form.
//!
//! The text of an identifier is a family byte in hexadecimal, a hyphen, and
//! exactly twelve hexadecimal digits that give the six serial bytes, two
//! digits each. No sign and no other character is part of it.

use crate::text::{chars_of, find_first, first_index};
use vstd::array::{spec_array_fill_for_copy_type, spec_array_update};
use vstd::prelude::*;
use vstd::slice::slice_subrange;

verus! {

/// The name of one token: a family byte followed by six serial bytes.
pub type OneWireId = [u8; 7];

/// Why a text is not an identifier.
#[derive(Clone, Copy, Debug, PartialEq, Eq, Structural)]
pub enum ParseError {
    /// The text holds no hyphen.
    BadFormat,
    /// The family is no hexadecimal number that fits in a byte, or the
    /// serial part is not exactly twelve hexadecimal digits.
    BadHex,
}

/// The identifier whose bytes are `bytes`.
pub open spec fn as_id(bytes: Seq<u8>) -> OneWireId {
    choose|id: OneWireId| id@ == bytes
}

/// An identifier is determined by its bytes.
pub proof fn lemma_as_id(id: OneWireId)
    ensures
        as_id(id@) == id,
{
    let other = as_id(id@);
    assert(other@ == id@);
    assert forall|i: int| 0 <= i < 7 implies other[i] == id[i] by {
        assert(other@[i] == id@[i]);
    }
    assert(other =~= id);
}

/// Every seven bytes are the bytes of an identifier.
pub proof fn lemma_as_id_bytes(bytes: Seq<u8>)
    requires
        bytes.len() == 7,
    ensures
        as_id(bytes)@ == bytes,
{
    let blank: OneWireId = spec_array_fill_for_copy_type(0u8);
    let id = spec_array_update(
        spec_array_update(
            spec_array_update(
                spec_array_update(
                    spec_array_update(
                        spec_array_update(spec_array_update(blank, 0, bytes[0]), 1, bytes[1]),
                        2,
                        bytes[2],
                    ),
                    3,
                    bytes[3],
                ),
                4,
                bytes[4],
            ),
            5,
            bytes[5],
        ),
        6,
        bytes[6],
    );
    assert(id@ =~= bytes);
}

/// The value of a hexadecimal digit, in either case.
pub open spec fn hex_digit(c: char) -> Option<u8> {
    let n = c as u32;
    if 0x30 <= n <= 0x39 {
        Some((n - 0x30) as u8)
    } else if 0x61 <= n <= 0x66 {
        Some((n - 0x61 + 10) as u8)
    } else if 0x41 <= n <= 0x46 {
        Some((n - 0x41 + 10) as u8)
    } else {
        None
    }
}

/// Every character of `digits` is a hexadecimal digit.
pub open spec fn all_hex(digits: Seq<char>) -> bool {
    forall|i: int| 0 <= i < digits.len() ==> hex_digit(#[trigger] digits[i]) is Some
}

/// The number that `digits` writes in base sixteen.
pub open spec fn hex_value(digits: Seq<char>) -> nat
    decreases digits.len(),
{
    if digits.len() == 0 {
        0
    } else {
        16 * hex_value(digits.drop_last()) + match hex_digit(digits.last()) {
            Some(d) => d as nat,
            None => 0,
        }
    }
}

/// The byte that `text` writes: one or more hexadecimal digits, and no
/// other character, whose value is at most 255.
pub open spec fn hex_byte(text: Seq<char>) -> Option<u8> {
    if text.len() > 0 && all_hex(text) && hex_value(text) <= 255 {
        Some(hex_value(text) as u8)
    } else {
        None
    }
}

/// The byte that two hexadecimal digits write, the high one first.
pub open spec fn hex_pair(high: char, low: char) -> Option<u8> {
    match (hex_digit(high), hex_digit(low)) {
        (Some(h), Some(l)) => Some((16 * h + l) as u8),
        _ => None,
    }
}

/// The `k`-th serial byte: what the two digits at `2 * k` and `2 * k + 1`
/// write.
pub open spec fn serial_byte(serial: Seq<char>, k: int) -> Option<u8> {
    hex_pair(serial[2 * k], serial[2 * k + 1])
}

/// The serial part is exactly twelve hexadecimal digits.
pub open spec fn serial_ok(serial: Seq<char>) -> bool {
    &&& serial.len() == 12
    &&& forall|k: int| 0 <= k < 6 ==> (#[trigger] serial_byte(serial, k)) is Some
}

/// The seven bytes of the identifier with this family and serial text.
pub open spec fn id_bytes(family: u8, serial: Seq<char>) -> Seq<u8> {
    Seq::new(
        7,
        |i: int|
            if i == 0 {
                family
            } else {
                serial_byte(serial, i - 1).unwrap()
            },
    )
}

/// What `text` decodes to. The family is the text before the first hyphen;
/// the serial is all that follows it, and has to be exactly twelve
/// hexadecimal digits.
pub open spec fn decode(text: Seq<char>) -> Result<OneWireId, ParseError> {
    match first_index(text, '-') {
        None => Err(ParseError::BadFormat),
        Some(dash) => {
            let family = hex_byte(text.take(dash));
            let serial = text.skip(dash + 1);
            if family is Some && serial_ok(serial) {
                Ok(as_id(id_bytes(family.unwrap(), serial)))
            } else {
                Err(ParseError::BadHex)
            }
        },
    }
}

/// The bytes of a decoded identifier are the family and the six serial
/// bytes, in this order.
pub proof fn lemma_decoded_bytes(text: Seq<char>)
    ensures
        match decode(text) {
            Ok(id) => {
                &&& first_index(text, '-') matches Some(dash)
                &&& hex_byte(text.take(dash)) matches Some(family)
                &&& id@ == id_bytes(family, text.skip(dash + 1))
            },
            Err(_) => true,
        },
{
    if let Some(dash) = first_index(text, '-') {
        if let Some(family) = hex_byte(text.take(dash)) {
            lemma_as_id_bytes(id_bytes(family, text.skip(dash + 1)));
        }
    }
}

/// A number is at least what any prefix of its digits writes.
proof fn lemma_hex_value_prefix(digits: Seq<char>, n: int)
    requires
        0 <= n <= digits.len(),
    ensures
        hex_value(digits.take(n)) <= hex_value(digits),
    decreases digits.len(),
{
    if n < digits.len() {
        lemma_hex_value_prefix(digits.drop_last(), n);
        assert(digits.drop_last().take(n) =~= digits.take(n));
    } else {
        assert(digits.take(n) =~= digits);
    }
}

/// Reads one hexadecimal digit.
pub fn hex_digit_of(c: char) -> (value: Option<u8>)
    ensures
        value == hex_digit(c),
{
    let n: u32 = c as u32;
    if 0x30 <= n && n <= 0x39 {
        Some((n - 0x30) as u8)
    } else if 0x61 <= n && n <= 0x66 {
        Some((n - 0x61 + 10) as u8)
    } else if 0x41 <= n && n <= 0x46 {
        Some((n - 0x41 + 10) as u8)
    } else {
        None
    }
}

/// Reads a byte written as one or more hexadecimal digits.
pub fn parse_hex_byte(text: &[char]) -> (value: Option<u8>)
    ensures
        value == hex_byte(text@),
{
    if text.len() == 0 {
        return None;
    }
    assert(text@.take(0) =~= Seq::<char>::empty());
    let mut acc: u32 = 0;
    let mut i: usize = 0;
    while i < text.len()
        invariant
            i <= text.len(),
            all_hex(text@.take(i as int)),
            acc == hex_value(text@.take(i as int)),
            acc <= 255,
        decreases text.len() - i,
    {
        let ghost seen = text@.take(i as int);
        let ghost more = text@.take(i + 1);
        proof {
            assert(more.drop_last() =~= seen);
            assert(more.last() == text@[i as int]);
        }
        match hex_digit_of(text[i]) {
            None => {
                assert(hex_digit(text@[i as int]) is None);
                return None;
            },
            Some(d) => {
                let next: u32 = acc * 16 + d as u32;
                assert(next == hex_value(more));
                if next > 255 {
                    proof {
                        lemma_hex_value_prefix(text@, i + 1);
                    }
                    return None;
                }
                assert forall|k: int| 0 <= k < more.len() implies hex_digit(
                    #[trigger] more[k],
                ) is Some by {
                    if k < seen.len() {
                        assert(more[k] == seen[k]);
                    }
                }
                acc = next;
            },
        }
        i += 1;
    }
    assert(text@.take(i as int) =~= text@);
    Some(acc as u8)
}

/// Reads the byte that two hexadecimal digits write, the high one first.
pub fn parse_hex_pair(high: char, low: char) -> (value: Option<u8>)
    ensures
        value == hex_pair(high, low),
{
    match hex_digit_of(high) {
        None => None,
        Some(h) => match hex_digit_of(low) {
            None => None,
            Some(l) => Some(16 * h + l),
        },
    }
}

/// Decodes the characters of an identifier.
pub fn decode_chars(text: &[char]) -> (decoded: Result<OneWireId, ParseError>)
    ensures
        decoded == decode(text@),
{
    let dash: usize = match find_first(text, '-') {
        None => {
            return Err(ParseError::BadFormat);
        },
        Some(dash) => dash,
    };
    let family: u8 = match parse_hex_byte(slice_subrange(text, 0, dash)) {
        None => {
            return Err(ParseError::BadHex);
        },
        Some(family) => family,
    };
    let serial = slice_subrange(text, dash + 1, text.len());
    if serial.len() != 12 {
        return Err(ParseError::BadHex);
    }
    let mut id: OneWireId = [0u8; 7];
    id[0] = family;
    let mut k: usize = 0;
    while k < 6
        invariant
            k <= 6,
            serial@.len() == 12,
            first_index(text@, '-') == Some(dash as int),
            hex_byte(text@.take(dash as int)) == Some(family),
            serial@ == text@.skip(dash + 1),
            id@[0] == family,
            forall|j: int| 0 <= j < k ==> (#[trigger] serial_byte(serial@, j)) == Some(id@[j + 1]),
        decreases 6 - k,
    {
        match parse_hex_pair(serial[2 * k], serial[2 * k + 1]) {
            None => {
                assert(serial_byte(serial@, k as int) is None);
                return Err(ParseError::BadHex);
            },
            Some(byte) => {
                id[k + 1] = byte;
            },
        }
        k += 1;
    }
    proof {
        assert(serial_ok(serial@));
        assert(id@ =~= id_bytes(family, serial@));
        lemma_as_id(id);
    }
    Ok(id)
}

/// Decodes the textual form of an identifier, such as `33-00000392c6ea`.
///
/// Fails with `BadFormat` when the text holds no hyphen. Fails with `BadHex`
/// when the family is no hexadecimal number that fits in a byte, and when
/// what follows the hyphen is not exactly twelve hexadecimal digits: too
/// short, too long, or with another character among them.
pub fn parse_1w_id(id: &str) -> (decoded: Result<OneWireId, ParseError>)
    ensures
        decoded == decode(id@),
{
    let chars = chars_of(id);
    decode_chars(chars.as_slice())
}

/// Whether two identifiers hold the same bytes.
pub fn same_id(a: &OneWireId, b: &OneWireId) -> (same: bool)
    ensures
        same == (*a == *b),
{
    let same = a[0] == b[0] && a[1] == b[1] && a[2] == b[2] && a[3] == b[3] && a[4] == b[4]
        && a[5] == b[5] && a[6] == b[6];
    proof {
        if same {
            assert(*a =~= *b);
        }
    }
    same
}

/// Whether `id` occurs in `list`.
pub fn listed_in(list: &Vec<OneWireId>, id: &OneWireId) -> (listed: bool)
    ensures
        listed == list@.contains(*id),
{
    let mut i: usize = 0;
    while i < list.len()
        invariant
            i <= list.len(),
            forall|k: int| 0 <= k < i ==> list@[k] != *id,
        decreases list.len() - i,
    {
        if same_id(&list[i], id) {
            return true;
        }
        i += 1;
    }
    false
}

} // verus!
