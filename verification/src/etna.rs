//! Framework-neutral property functions for hex decoding.
//!
//! Each `property_<name>` is a function taking concrete, owned inputs and
//! returning a `PropertyResult`. Property-testing adapters and the fixed
//! witness tests call these functions directly; none of them restates the
//! invariant. Each function's contract states that it never fails: what it
//! checks is proved here for every input.

use vstd::prelude::*;

use crate::decode::{
    all_hex, decode, is_hex_digit, lemma_single_invalid_byte_is_reported, result_view,
};
use crate::error::FromHexError;
use crate::text::{debug_of_str, push_bytes_debug, push_char_debug, push_decimal, push_hex_byte};

verus! {

/// The outcome of checking a property on one input.
pub enum PropertyResult {
    /// The property held.
    Pass,
    /// The property did not hold; the message says how.
    Fail(String),
    /// The input is outside what the property speaks of.
    Discard,
}

/// The hex digit `0-9a-f` for the low nibble `d` (with `d < 16`), as a byte.
fn alphabet(d: u8) -> (b: u8)
    requires
        d < 16,
    ensures
        is_hex_digit(b),
{
    if d < 10 {
        0x30u8 + d
    } else {
        0x57u8 + d
    }
}

/// Property: `decode` rejects an input that holds an ASCII whitespace byte at
/// an even position (the first digit of a pair), with `InvalidHexCharacter`
/// that names that byte and its position.
///
/// The bytes of `data` are lifted into the alphabet `0-9a-f` by their low
/// nibble; a `'0'` is appended where their number is odd, and the body is
/// cut to 256 bytes. `ws_at` picks the pair (modulo the number of pairs) whose
/// first byte is overwritten, `ws_kind` the whitespace byte. An empty `data`
/// is discarded.
pub fn property_from_hex_rejects_whitespace(data: Vec<u8>, ws_at: u32, ws_kind: u8) -> (r:
    PropertyResult)
    ensures
        data@.len() == 0 ==> r is Discard,
        data@.len() > 0 ==> r is Pass,
{
    if data.len() == 0 {
        return PropertyResult::Discard;
    }
    let mut body: Vec<u8> = Vec::new();
    let mut i: usize = 0;
    while i < data.len()
        invariant
            i <= data@.len(),
            body@.len() == i,
            all_hex(body@),
        decreases data.len() - i,
    {
        let raw: u8 = data[i];
        let nibble: u8 = raw & 0x0f;
        assert(nibble < 16) by (bit_vector)
            requires
                nibble == raw & 0x0f,
        ;
        let b = alphabet(nibble);
        body.push(b);
        i = i + 1;
    }
    if body.len() % 2 != 0 {
        body.push(0x30);
    }
    if body.len() > 256 {
        body.truncate(256);
    }
    if body.len() == 0 {
        return PropertyResult::Discard;
    }
    assert(all_hex(body@));
    assert(body@.len() % 2 == 0);
    let pair_count: u32 = (body.len() / 2) as u32;
    let pair_idx: usize = (ws_at % pair_count) as usize;
    let idx: usize = pair_idx * 2;
    let ws: u8 = match ws_kind % 4 {
        0 => 0x20,
        1 => 0x09,
        2 => 0x0a,
        _ => 0x0d,
    };
    let ghost clean = body@;
    body.set(idx, ws);
    let decoded = decode(body.as_slice());
    proof {
        lemma_single_invalid_byte_is_reported(
            clean,
            idx as int,
            ws,
            result_view(decoded),
        );
    }
    match decoded {
        Err(FromHexError::InvalidHexCharacter { c, index }) => {
            if c as u32 != ws as u32 {
                let mut m = String::new();
                m.append("decode returned InvalidHexCharacter for ");
                push_char_debug(&mut m, c);
                m.append(" but injected byte was ");
                push_char_debug(&mut m, ws as char);
                return PropertyResult::Fail(m);
            }
            if index != idx {
                let mut m = String::new();
                m.append("decode reported index ");
                push_decimal(&mut m, index as u128);
                m.append(" but whitespace was at ");
                push_decimal(&mut m, idx as u128);
                return PropertyResult::Fail(m);
            }
            PropertyResult::Pass
        },
        Err(other) => {
            let mut m = String::new();
            m.append("decode returned ");
            m.append(other.debug_string().as_str());
            m.append(" instead of InvalidHexCharacter; injected ");
            push_char_debug(&mut m, ws as char);
            m.append(" at ");
            push_decimal(&mut m, idx as u128);
            PropertyResult::Fail(m)
        },
        Ok(out) => {
            let mut m = String::new();
            m.append("decode silently accepted whitespace at ");
            push_decimal(&mut m, idx as u128);
            m.append(": got ");
            push_bytes_debug(&mut m, out.as_slice());
            PropertyResult::Fail(m)
        },
    }
}

/// Whether the character `target` occurs in `s`.
fn contains_char(s: &str, target: char) -> (b: bool)
    ensures
        b == s@.contains(target),
{
    let n = s.unicode_len();
    let mut i: usize = 0;
    while i < n
        invariant
            n == s@.len(),
            i <= n,
            forall|j: int| 0 <= j < i ==> s@[j] != target,
        decreases n - i,
    {
        if s.get_char(i) == target {
            return true;
        }
        i = i + 1;
    }
    false
}

/// Property: the message of `InvalidHexCharacter` never holds the raw
/// character when that is an ASCII control character; the character is shown
/// escaped.
///
/// Only bytes below 0x20 and 0x7f are checked, the others are discarded: the
/// input is the byte followed by `'0'`, and the error that `decode` gives for
/// it must name position 0.
pub fn property_invalid_char_error_display_escaped(byte: u8) -> (r: PropertyResult)
    ensures
        (byte < 0x20 || byte == 0x7f) ==> r is Pass,
        !(byte < 0x20 || byte == 0x7f) ==> r is Discard,
{
    let is_hex = (0x30 <= byte && byte <= 0x39) || (0x61 <= byte && byte <= 0x66) || (0x41 <= byte
        && byte <= 0x46);
    if is_hex {
        return PropertyResult::Discard;
    }
    if !(byte < 0x20 || byte == 0x7f) {
        return PropertyResult::Discard;
    }
    let input: Vec<u8> = vec![byte, 0x30];
    proof {
        assert(!is_hex_digit(input@[0]));
        assert(all_hex(input@.take(0)));
        assert forall|index: int|
            0 <= index < input@.len() && !is_hex_digit(#[trigger] input@[index]) && all_hex(
                input@.take(index),
            ) implies index == 0 by {
            if index > 0 {
                assert(input@.take(index)[0] == input@[0]);
            }
        }
    }
    let err = match decode(input.as_slice()) {
        Err(e) => e,
        Ok(_) => {
            let mut m = String::new();
            m.append("decode unexpectedly succeeded for invalid byte 0x");
            push_hex_byte(&mut m, byte);
            return PropertyResult::Fail(m);
        },
    };
    match err {
        FromHexError::InvalidHexCharacter { index, .. } => {
            if index != 0 {
                let mut m = String::new();
                m.append("expected InvalidHexCharacter at index 0, got index ");
                push_decimal(&mut m, index as u128);
                return PropertyResult::Fail(m);
            }
        },
        other => {
            let mut m = String::new();
            m.append("expected InvalidHexCharacter, got ");
            m.append(other.debug_string().as_str());
            return PropertyResult::Fail(m);
        },
    }
    let rendered = err.to_string();
    if contains_char(rendered.as_str(), byte as char) {
        let mut m = String::new();
        m.append("error Display leaked raw byte 0x");
        push_hex_byte(&mut m, byte);
        m.append(": ");
        m.append(debug_of_str(rendered.as_str()).as_str());
        return PropertyResult::Fail(m);
    }
    PropertyResult::Pass
}

/// A property's outcome as a property-testing framework takes it: `Some(true)`
/// for a pass, `Some(false)` for a failure, `None` for a discarded input.
pub fn to_opt(r: PropertyResult) -> (o: Option<bool>)
    ensures
        o == (match r {
            PropertyResult::Pass => Some(true),
            PropertyResult::Fail(_) => Some(false),
            PropertyResult::Discard => None::<bool>,
        }),
{
    match r {
        PropertyResult::Pass => Some(true),
        PropertyResult::Fail(_) => Some(false),
        PropertyResult::Discard => None,
    }
}

} // verus!
