use vstd::prelude::*;

use crate::text::{char_debug, decimal, hex_numeral, latin1_escape, push_char_debug, push_decimal};

verus! {

/// The errors that can occur while decoding a hex string.
#[derive(Debug, Clone, Copy, PartialEq, Eq, Structural)]
pub enum FromHexError {
    /// An invalid character was found: a byte that is not one of
    /// `0-9`, `a-f` or `A-F`. `index` is its position in the input.
    InvalidHexCharacter { c: char, index: usize },
    /// A hex string's length needs to be even, as two digits correspond to
    /// one byte.
    OddLength,
    /// The hex string was not the length the destination expected.
    InvalidStringLength,
}

/// A control character: below 0x20, or from 0x7f to 0x9f.
pub open spec fn is_control(c: char) -> bool {
    (c as u32) < 0x20 || (0x7f <= (c as u32) && (c as u32) < 0xa0)
}

/// No character of `s` is a control character.
pub open spec fn free_of_control(s: Seq<char>) -> bool {
    forall|i: int| 0 <= i < s.len() ==> !is_control(#[trigger] s[i])
}

impl FromHexError {
    /// The message of the error: for an invalid character, the character in
    /// its debug form (quoted, control characters escaped) and its position.
    pub open spec fn display_text(self) -> Seq<char> {
        match self {
            FromHexError::InvalidHexCharacter { c, index } => "Invalid character "@ + char_debug(c)
                + " at position "@ + decimal(index as nat),
            FromHexError::OddLength => "Odd number of digits"@,
            FromHexError::InvalidStringLength => "Invalid string length"@,
        }
    }

    /// The error as its derived debug form shows it.
    pub open spec fn debug_text(self) -> Seq<char> {
        match self {
            FromHexError::InvalidHexCharacter { c, index } => "InvalidHexCharacter { c: "@
                + char_debug(c) + ", index: "@ + decimal(index as nat) + " }"@,
            FromHexError::OddLength => "OddLength"@,
            FromHexError::InvalidStringLength => "InvalidStringLength"@,
        }
    }

    /// The character that the error names is in Latin-1 (below 0x100), or
    /// it names none.
    pub open spec fn names_latin1(self) -> bool {
        match self {
            FromHexError::InvalidHexCharacter { c, .. } => (c as u32) < 0x100,
            _ => true,
        }
    }

    /// The error's message. A character that it names is shown escaped, so
    /// that where it is in Latin-1 the message holds no control character,
    /// however the character itself was a control character.
    pub fn to_string(&self) -> (s: String)
        ensures
            s@ == self.display_text(),
            self.names_latin1() ==> free_of_control(s@),
    {
        let mut s = String::new();
        match self {
            FromHexError::InvalidHexCharacter { c, index } => {
                s.append("Invalid character ");
                push_char_debug(&mut s, *c);
                s.append(" at position ");
                push_decimal(&mut s, *index as u128);
            },
            FromHexError::OddLength => {
                s.append("Odd number of digits");
            },
            FromHexError::InvalidStringLength => {
                s.append("Invalid string length");
            },
        }
        proof {
            if self.names_latin1() {
                lemma_display_free_of_control(*self);
            }
        }
        s
    }

    /// The error's debug form, as `{:?}` shows it.
    pub fn debug_string(&self) -> (s: String)
        ensures
            s@ == self.debug_text(),
    {
        let mut s = String::new();
        match self {
            FromHexError::InvalidHexCharacter { c, index } => {
                s.append("InvalidHexCharacter { c: ");
                push_char_debug(&mut s, *c);
                s.append(", index: ");
                push_decimal(&mut s, *index as u128);
                s.append(" }");
            },
            FromHexError::OddLength => {
                s.append("OddLength");
            },
            FromHexError::InvalidStringLength => {
                s.append("InvalidStringLength");
            },
        }
        s
    }
}

proof fn lemma_decimal_digits(n: nat)
    ensures
        forall|i: int|
            0 <= i < decimal(n).len() ==> 0x30 <= (#[trigger] decimal(n)[i] as u32) <= 0x39,
    decreases n,
{
    if n >= 10 {
        lemma_decimal_digits(n / 10);
        let a = decimal(n / 10);
        let b = decimal(n);
        assert forall|i: int| 0 <= i < b.len() implies 0x30 <= (#[trigger] b[i] as u32) <= 0x39 by {
            if i < a.len() {
                assert(b[i] == a[i]);
            }
        }
    }
}

proof fn lemma_hex_numeral_digits(n: nat)
    ensures
        forall|i: int|
            0 <= i < hex_numeral(n).len() ==> 0x30 <= (#[trigger] hex_numeral(n)[i] as u32) <= 0x66,
    decreases n,
{
    if n >= 16 {
        lemma_hex_numeral_digits(n / 16);
        let a = hex_numeral(n / 16);
        let b = hex_numeral(n);
        assert forall|i: int| 0 <= i < b.len() implies 0x30 <= (#[trigger] b[i] as u32) <= 0x66 by {
            if i < a.len() {
                assert(b[i] == a[i]);
            }
        }
    }
}

proof fn lemma_free_of_control_concat(a: Seq<char>, b: Seq<char>)
    requires
        free_of_control(a),
        free_of_control(b),
    ensures
        free_of_control(a + b),
{
    assert forall|i: int| 0 <= i < (a + b).len() implies !is_control(#[trigger] (a + b)[i]) by {
        if i < a.len() {
            assert((a + b)[i] == a[i]);
        } else {
            assert((a + b)[i] == b[i - a.len()]);
        }
    }
}

proof fn lemma_char_debug_free_of_control(c: char)
    requires
        (c as u32) < 0x100,
    ensures
        free_of_control(char_debug(c)),
{
    let e = latin1_escape(c);
    if !(c == '\0' || c == '\t' || c == '\r' || c == '\n' || c == '\\' || c == '\'')
        && !crate::text::latin1_printable(c as int) {
        lemma_hex_numeral_digits(c as nat);
        let h = hex_numeral(c as nat);
        assert(free_of_control(h));
        lemma_free_of_control_concat(seq!['\\', 'u', '{'], h);
        lemma_free_of_control_concat(seq!['\\', 'u', '{'] + h, seq!['}']);
    }
    assert(free_of_control(e));
    lemma_free_of_control_concat(seq!['\''], e);
    lemma_free_of_control_concat(seq!['\''] + e, seq!['\'']);
}

/// The message of an error that names a Latin-1 character, or none, holds
/// no control character.
pub proof fn lemma_display_free_of_control(e: FromHexError)
    requires
        e.names_latin1(),
    ensures
        free_of_control(e.display_text()),
{
    reveal_strlit("Invalid character ");
    reveal_strlit(" at position ");
    reveal_strlit("Odd number of digits");
    reveal_strlit("Invalid string length");
    match e {
        FromHexError::InvalidHexCharacter { c, index } => {
            lemma_char_debug_free_of_control(c);
            lemma_decimal_digits(index as nat);
            assert(free_of_control("Invalid character "@));
            assert(free_of_control(" at position "@));
            lemma_free_of_control_concat("Invalid character "@, char_debug(c));
            lemma_free_of_control_concat("Invalid character "@ + char_debug(c), " at position "@);
            lemma_free_of_control_concat(
                "Invalid character "@ + char_debug(c) + " at position "@,
                decimal(index as nat),
            );
        },
        FromHexError::OddLength => {
            assert(free_of_control("Odd number of digits"@));
        },
        FromHexError::InvalidStringLength => {
            assert(free_of_control("Invalid string length"@));
        },
    }
}

} // verus!
