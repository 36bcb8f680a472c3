//! Text building blocks: decimal and hexadecimal numerals, and the quoted,
//! escaped form in which a character or a list of bytes is shown.

use vstd::prelude::*;

verus! {

/// std's `String::push`: appending a character to a `String` extends its
/// characters by that one, as its documentation says.
pub assume_specification[ String::push ](s: &mut String, ch: char)
    ensures
        final(s)@ == old(s)@.push(ch),
;

/// The lower-case hexadecimal digit for `d` (where `0 <= d < 16`); for
/// `d < 10` this is also the decimal digit.
pub open spec fn digit_char(d: int) -> char {
    if d < 10 {
        (0x30 + d) as char
    } else {
        (0x61 + d - 10) as char
    }
}

/// The decimal numeral of `n`, without leading zeros.
pub open spec fn decimal(n: nat) -> Seq<char>
    decreases n,
{
    if n < 10 {
        seq![digit_char(n as int)]
    } else {
        decimal(n / 10) + seq![digit_char((n % 10) as int)]
    }
}

/// The lower-case hexadecimal numeral of `n`, without leading zeros.
pub open spec fn hex_numeral(n: nat) -> Seq<char>
    decreases n,
{
    if n < 16 {
        seq![digit_char(n as int)]
    } else {
        hex_numeral(n / 16) + seq![digit_char((n % 16) as int)]
    }
}

/// The two-digit, zero-padded, lower-case hexadecimal numeral of a byte.
pub open spec fn hex_byte(b: u8) -> Seq<char> {
    seq![digit_char((b / 16) as int), digit_char((b % 16) as int)]
}

/// Whether the character with code `v` below 0x100 is shown as itself when a
/// character is debug-formatted: all of Latin-1 but the control characters
/// (below 0x20 and 0x7f to 0x9f), the no-break space 0xa0 and the soft
/// hyphen 0xad.
pub open spec fn latin1_printable(v: int) -> bool {
    (0x20 <= v < 0x7f) || (0xa0 < v < 0x100 && v != 0xad)
}

/// How a Latin-1 character appears between the quotes of its debug form.
pub open spec fn latin1_escape(c: char) -> Seq<char> {
    if c == '\0' {
        seq!['\\', '0']
    } else if c == '\t' {
        seq!['\\', 't']
    } else if c == '\r' {
        seq!['\\', 'r']
    } else if c == '\n' {
        seq!['\\', 'n']
    } else if c == '\\' {
        seq!['\\', '\\']
    } else if c == '\'' {
        seq!['\\', '\'']
    } else if latin1_printable(c as int) {
        seq![c]
    } else {
        seq!['\\', 'u', '{'] + hex_numeral(c as nat) + seq!['}']
    }
}

/// What std's `Debug` formatting of a `char` gives.
pub uninterp spec fn std_char_debug(c: char) -> Seq<char>;

/// The debug form of a character: between single quotes, the character or
/// its escape. Beyond Latin-1, whether a character is escaped rests on
/// Unicode's tables, and std's own formatting is taken.
pub open spec fn char_debug(c: char) -> Seq<char> {
    if (c as u32) < 0x100 {
        seq!['\''] + latin1_escape(c) + seq!['\'']
    } else {
        std_char_debug(c)
    }
}

/// The value of a hexadecimal digit character of either case, or none.
pub open spec fn hex_char_value(c: char) -> Option<int> {
    let v = c as u32;
    if 0x30 <= v <= 0x39 {
        Some(v - 0x30)
    } else if 0x61 <= v <= 0x66 {
        Some(v - 0x61 + 10)
    } else if 0x41 <= v <= 0x46 {
        Some(v - 0x41 + 10)
    } else {
        None
    }
}

/// Every character of `s` is a decimal digit, and there is at least one.
pub open spec fn all_decimal_digits(s: Seq<char>) -> bool {
    s.len() > 0 && forall|i: int| 0 <= i < s.len() ==> 0x30 <= (#[trigger] s[i] as u32) <= 0x39
}

/// The number that the decimal digits `s` stand for, as a reader takes them.
pub open spec fn decimal_value(s: Seq<char>) -> int
    decreases s.len(),
{
    if s.len() == 0 {
        0
    } else {
        decimal_value(s.drop_last()) * 10 + (s.last() as u32 - 0x30)
    }
}

/// The decimal numeral of `n` is all digits and reads back as `n`.
pub proof fn lemma_decimal_reads_back(n: nat)
    ensures
        all_decimal_digits(decimal(n)),
        decimal_value(decimal(n)) == n,
    decreases n,
{
    let s = decimal(n);
    if n < 10 {
        assert(s.drop_last() =~= Seq::<char>::empty());
        assert(s.last() == digit_char(n as int));
        assert((digit_char(n as int) as u32) == 0x30 + n);
        assert(decimal_value(s) == decimal_value(Seq::<char>::empty()) * 10 + n as int);
    } else {
        lemma_decimal_reads_back(n / 10);
        let a = decimal(n / 10);
        assert(s.drop_last() =~= a);
        assert(s.last() == digit_char((n % 10) as int));
        assert((digit_char((n % 10) as int) as u32) == 0x30 + n % 10);
        assert forall|i: int| 0 <= i < s.len() implies 0x30 <= (#[trigger] s[i] as u32) <= 0x39 by {
            if i < a.len() {
                assert(s[i] == a[i]);
            }
        }
        assert(decimal_value(s) == decimal_value(a) * 10 + (n % 10) as int);
        assert((n / 10) * 10 + n % 10 == n) by (nonlinear_arith);
    }
}

/// The two-digit numeral of a byte reads back as the byte: the value of its
/// first digit times sixteen plus that of its second.
pub proof fn lemma_hex_byte_reads_back(b: u8)
    ensures
        hex_byte(b).len() == 2,
        hex_char_value(hex_byte(b)[0]) == Some((b / 16) as int),
        hex_char_value(hex_byte(b)[1]) == Some((b % 16) as int),
        (b / 16) * 16 + b % 16 == b,
{
}

/// The numerals of the bytes of `s`, separated by `", "`.
pub open spec fn decimal_items(s: Seq<u8>) -> Seq<char>
    decreases s.len(),
{
    if s.len() == 0 {
        Seq::empty()
    } else if s.len() == 1 {
        decimal(s[0] as nat)
    } else {
        decimal_items(s.drop_last()) + ", "@ + decimal(s.last() as nat)
    }
}

/// The debug form of a list of bytes, such as `[0, 171, 16]`.
pub open spec fn bytes_debug(s: Seq<u8>) -> Seq<char> {
    seq!['['] + decimal_items(s) + seq![']']
}

/// The digit character for `d`.
pub fn digit(d: u8) -> (c: char)
    requires
        d < 16,
    ensures
        c == digit_char(d as int),
{
    if d < 10 {
        (0x30u8 + d) as char
    } else {
        (0x57u8 + d) as char
    }
}

/// Appends the decimal numeral of `n`.
pub fn push_decimal(out: &mut String, n: u128)
    ensures
        final(out)@ == old(out)@ + decimal(n as nat),
    decreases n,
{
    if n >= 10 {
        push_decimal(out, n / 10);
    }
    let d: u8 = (n % 10) as u8;
    out.push(digit(d));
}

/// Appends the hexadecimal numeral of `n`.
pub fn push_hex_numeral(out: &mut String, n: u32)
    ensures
        final(out)@ == old(out)@ + hex_numeral(n as nat),
    decreases n,
{
    if n >= 16 {
        push_hex_numeral(out, n / 16);
    }
    let d: u8 = (n % 16) as u8;
    out.push(digit(d));
}

/// Appends the two-digit hexadecimal numeral of `b`.
pub fn push_hex_byte(out: &mut String, b: u8)
    ensures
        final(out)@ == old(out)@ + hex_byte(b),
{
    out.push(digit(b / 16));
    out.push(digit(b % 16));
}

/// std's `Debug` formatting of a `char`, through `format!("{:?}", c)`. The
/// contract claims only that the text is `std_char_debug(c)`, the same for
/// the same character; what that text is, is not stated.
#[verifier::external_body]
fn std_debug_of_char(c: char) -> (s: String)
    ensures
        s@ == std_char_debug(c),
{
    format!("{:?}", c)
}

/// What std's `Debug` formatting of a string gives for the characters `s`.
pub uninterp spec fn std_str_debug(s: Seq<char>) -> Seq<char>;

/// std's `Debug` formatting of a string, through `format!("{:?}", s)`. The
/// contract claims only that the text is `std_str_debug(s@)`, the same for
/// the same characters; what that text is (the string quoted, with escapes)
/// is not stated.
#[verifier::external_body]
pub(crate) fn debug_of_str(s: &str) -> (r: String)
    ensures
        r@ == std_str_debug(s@),
{
    format!("{:?}", s)
}

/// Whether the strings `a` and `b` hold the same characters.
pub fn str_eq(a: &str, b: &str) -> (r: bool)
    ensures
        r == (a@ == b@),
{
    let n = a.unicode_len();
    if n != b.unicode_len() {
        return false;
    }
    let mut i: usize = 0;
    while i < n
        invariant
            n == a@.len(),
            n == b@.len(),
            i <= n,
            forall|j: int| 0 <= j < i ==> a@[j] == b@[j],
        decreases n - i,
    {
        if a.get_char(i) != b.get_char(i) {
            return false;
        }
        i = i + 1;
    }
    assert(a@ =~= b@);
    true
}

/// Appends the debug form of `c`.
pub fn push_char_debug(out: &mut String, c: char)
    ensures
        final(out)@ == old(out)@ + char_debug(c),
{
    let v: u32 = c as u32;
    if v >= 0x100 {
        let s = std_debug_of_char(c);
        out.append(s.as_str());
        return;
    }
    out.push('\'');
    if c == '\0' {
        out.push('\\');
        out.push('0');
    } else if c == '\t' {
        out.push('\\');
        out.push('t');
    } else if c == '\r' {
        out.push('\\');
        out.push('r');
    } else if c == '\n' {
        out.push('\\');
        out.push('n');
    } else if c == '\\' {
        out.push('\\');
        out.push('\\');
    } else if c == '\'' {
        out.push('\\');
        out.push('\'');
    } else if (0x20 <= v && v < 0x7f) || (0xa0 < v && v != 0xad) {
        out.push(c);
    } else {
        out.push('\\');
        out.push('u');
        out.push('{');
        push_hex_numeral(out, v);
        out.push('}');
    }
    out.push('\'');
}

/// Appends the debug form of the bytes `s`.
pub fn push_bytes_debug(out: &mut String, s: &[u8])
    ensures
        final(out)@ == old(out)@ + bytes_debug(s@),
{
    let ghost start = out@;
    out.push('[');
    let mut i: usize = 0;
    while i < s.len()
        invariant
            i <= s@.len(),
            out@ == start + seq!['['] + decimal_items(s@.take(i as int)),
        decreases s.len() - i,
    {
        if i > 0 {
            out.append(", ");
        }
        push_decimal(out, s[i] as u128);
        proof {
            let t = s@.take(i + 1);
            assert(t.drop_last() =~= s@.take(i as int));
            if i == 0 {
                assert(decimal_items(s@.take(0)) =~= Seq::<char>::empty());
            }
            assert(out@ =~= start + seq!['['] + decimal_items(t));
        }
        i = i + 1;
    }
    out.push(']');
    assert(s@.take(s@.len() as int) =~= s@);
    assert(out@ =~= start + bytes_debug(s@));
}

} // verus!
