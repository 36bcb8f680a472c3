use vstd::prelude::*;

use crate::error::FromHexError;

verus! {

/// Whether `b` is one of the sixteen digits `0-9` (0x30..=0x39), `a-f`
/// (0x61..=0x66), `A-F` (0x41..=0x46).
pub open spec fn is_hex_digit(b: u8) -> bool {
    (0x30u8 <= b <= 0x39u8) || (0x61u8 <= b <= 0x66u8) || (0x41u8 <= b <= 0x46u8)
}

/// The value of the hex digit `b` (meaningful only where `is_hex_digit(b)`).
pub open spec fn digit_value(b: u8) -> int {
    if 0x30u8 <= b <= 0x39u8 {
        b - 0x30u8
    } else if 0x61u8 <= b <= 0x66u8 {
        b - 0x61u8 + 10
    } else {
        b - 0x41u8 + 10
    }
}

/// Every byte of `s` is a hex digit.
pub open spec fn all_hex(s: Seq<u8>) -> bool {
    forall|i: int| 0 <= i < s.len() ==> #[trigger] is_hex_digit(s[i])
}

/// The bytes that the hex digits of `s` stand for, two digits per byte,
/// the first digit of each pair being the high nibble.
pub open spec fn decoded(s: Seq<u8>) -> Seq<u8> {
    Seq::new(
        s.len() / 2,
        |k: int| (digit_value(s[2 * k]) * 16 + digit_value(s[2 * k + 1])) as u8,
    )
}

/// What `decode` gives for the input `s`: `OddLength` for an odd number of
/// bytes; otherwise `InvalidHexCharacter` at the first byte that is not a hex
/// digit, if there is one; otherwise the decoded bytes.
pub open spec fn decode_result(s: Seq<u8>, r: Result<Seq<u8>, FromHexError>) -> bool {
    if s.len() % 2 == 1 {
        r == Err::<Seq<u8>, FromHexError>(FromHexError::OddLength)
    } else if all_hex(s) {
        r == Ok::<Seq<u8>, FromHexError>(decoded(s))
    } else {
        exists|index: int|
            0 <= index < s.len() && !is_hex_digit(#[trigger] s[index]) && all_hex(s.take(index))
                && r == Err::<Seq<u8>, FromHexError>(
                FromHexError::InvalidHexCharacter { c: s[index] as char, index: index as usize },
            )
    }
}

/// A decoding result with the bytes taken as a sequence.
pub open spec fn result_view(r: Result<Vec<u8>, FromHexError>) -> Result<Seq<u8>, FromHexError> {
    match r {
        Ok(v) => Ok(v@),
        Err(e) => Err(e),
    }
}

/// `decode_result` pins the result down: at most one result meets it for a
/// given input.
pub proof fn lemma_decode_result_unique(
    s: Seq<u8>,
    r1: Result<Seq<u8>, FromHexError>,
    r2: Result<Seq<u8>, FromHexError>,
)
    requires
        decode_result(s, r1),
        decode_result(s, r2),
    ensures
        r1 == r2,
{
    if s.len() % 2 == 0 && !all_hex(s) {
        let i1 = choose|index: int|
            0 <= index < s.len() && !is_hex_digit(#[trigger] s[index]) && all_hex(s.take(index))
                && r1 == Err::<Seq<u8>, FromHexError>(
                FromHexError::InvalidHexCharacter { c: s[index] as char, index: index as usize },
            );
        let i2 = choose|index: int|
            0 <= index < s.len() && !is_hex_digit(#[trigger] s[index]) && all_hex(s.take(index))
                && r2 == Err::<Seq<u8>, FromHexError>(
                FromHexError::InvalidHexCharacter { c: s[index] as char, index: index as usize },
            );
        if i1 < i2 {
            assert(s.take(i2)[i1] == s[i1]);
        } else if i2 < i1 {
            assert(s.take(i1)[i2] == s[i2]);
        }
    }
}

/// A single byte that is not a hex digit, put anywhere in an input of even
/// length that is otherwise all hex digits (whitespace such as a space, tab,
/// line feed or carriage return among such bytes), is what decoding reports:
/// `InvalidHexCharacter` with that byte and its position.
pub proof fn lemma_single_invalid_byte_is_reported(
    s: Seq<u8>,
    idx: int,
    b: u8,
    r: Result<Seq<u8>, FromHexError>,
)
    requires
        s.len() % 2 == 0,
        all_hex(s),
        0 <= idx < s.len(),
        !is_hex_digit(b),
        decode_result(s.update(idx, b), r),
    ensures
        r == Err::<Seq<u8>, FromHexError>(
            FromHexError::InvalidHexCharacter { c: b as char, index: idx as usize },
        ),
{
    let t = s.update(idx, b);
    assert(!is_hex_digit(t[idx]));
    let index = choose|index: int|
        0 <= index < t.len() && !is_hex_digit(#[trigger] t[index]) && all_hex(t.take(index)) && r
            == Err::<Seq<u8>, FromHexError>(
            FromHexError::InvalidHexCharacter { c: t[index] as char, index: index as usize },
        );
    if index < idx {
        assert(t[index] == s[index]);
    } else if index > idx {
        assert(t.take(index)[idx] == t[idx]);
    }
}

/// The value of one hex digit, or the error that names it and its position.
fn val(c: u8, idx: usize) -> (r: Result<u8, FromHexError>)
    ensures
        is_hex_digit(c) ==> r == Ok::<u8, FromHexError>(digit_value(c) as u8),
        !is_hex_digit(c) ==> r == Err::<u8, FromHexError>(
            FromHexError::InvalidHexCharacter { c: c as char, index: idx },
        ),
{
    if 0x41u8 <= c && c <= 0x46u8 {
        Ok(c - 0x41u8 + 10)
    } else if 0x61u8 <= c && c <= 0x66u8 {
        Ok(c - 0x61u8 + 10)
    } else if 0x30u8 <= c && c <= 0x39u8 {
        Ok(c - 0x30u8)
    } else {
        Err(FromHexError::InvalidHexCharacter { c: c as char, index: idx })
    }
}

/// Decodes a hex string into raw bytes.
///
/// Both upper and lower case digits are accepted. Any other byte, whitespace
/// included, is an error at its position; so is an odd length.
pub fn decode(data: &[u8]) -> (r: Result<Vec<u8>, FromHexError>)
    ensures
        decode_result(data@, result_view(r)),
{
    if data.len() % 2 != 0 {
        return Err(FromHexError::OddLength);
    }
    let n = data.len() / 2;
    let mut out: Vec<u8> = Vec::with_capacity(n);
    let mut i: usize = 0;
    while i < n
        invariant
            n == data@.len() / 2,
            data@.len() % 2 == 0,
            data@.len() == data.len(),
            i <= n,
            out@.len() == i,
            all_hex(data@.take(2 * i as int)),
            forall|k: int| 0 <= k < i ==> #[trigger] out@[k] == decoded(data@)[k],
        decreases n - i,
    {
        let hi = match val(data[2 * i], 2 * i) {
            Ok(v) => v,
            Err(e) => {
                proof {
                    assert(!all_hex(data@)) by {
                        assert(!is_hex_digit(data@[2 * i as int]));
                    }
                }
                return Err(e);
            },
        };
        let lo = match val(data[2 * i + 1], 2 * i + 1) {
            Ok(v) => v,
            Err(e) => {
                proof {
                    assert(!all_hex(data@)) by {
                        assert(!is_hex_digit(data@[2 * i + 1]));
                    }
                    assert forall|j: int| 0 <= j < 2 * i + 1 implies #[trigger] is_hex_digit(
                        data@.take(2 * i + 1)[j],
                    ) by {
                        if j < 2 * i {
                            assert(data@.take(2 * i + 1)[j] == data@.take(2 * i as int)[j]);
                        }
                    }
                }
                return Err(e);
            },
        };
        let byte = hi << 4 | lo;
        assert(byte == hi * 16 + lo) by (bit_vector)
            requires
                hi < 16,
                lo < 16,
                byte == hi << 4 | lo,
        ;
        out.push(byte);
        proof {
            assert forall|j: int| 0 <= j < 2 * i + 2 implies #[trigger] is_hex_digit(
                data@.take(2 * i + 2)[j],
            ) by {
                if j < 2 * i {
                    assert(data@.take(2 * i + 2)[j] == data@.take(2 * i as int)[j]);
                }
            }
        }
        i = i + 1;
    }
    proof {
        assert(data@.take(data@.len() as int) =~= data@);
        assert(out@ =~= decoded(data@));
    }
    Ok(out)
}

} // verus!
