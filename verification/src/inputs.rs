//! The inputs of the two properties as a fault-localising search perturbs
//! them: one field at a time, one byte or one bit.

use vstd::prelude::*;

use crate::text::{
    all_decimal_digits, bytes_debug, decimal, decimal_value, hex_byte, hex_char_value,
    lemma_decimal_reads_back, lemma_hex_byte_reads_back, push_bytes_debug, push_decimal,
    push_hex_byte,
};

verus! {

/// An input of the whitespace property: the bytes of the body, the pair that
/// gets the whitespace and which whitespace byte.
#[derive(Clone)]
pub struct WhitespaceInput {
    pub data: Vec<u8>,
    pub ws_at: u32,
    pub ws_kind: u8,
}

impl WhitespaceInput {
    /// How the input is shown: `data=[..] ws_at=N ws_kind=N`.
    pub open spec fn text(&self) -> Seq<char> {
        "data="@ + bytes_debug(self.data@) + " ws_at="@ + decimal(self.ws_at as nat)
            + " ws_kind="@ + decimal(self.ws_kind as nat)
    }

    /// The input as `text` shows it.
    pub fn describe(&self) -> (s: String)
        ensures
            s@ == self.text(),
    {
        let mut s = String::new();
        s.append("data=");
        push_bytes_debug(&mut s, self.data.as_slice());
        s.append(" ws_at=");
        push_decimal(&mut s, self.ws_at as u128);
        s.append(" ws_kind=");
        push_decimal(&mut s, self.ws_kind as u128);
        s
    }

    /// The input with one field perturbed. `field` 0: the byte at `pos` of
    /// the data becomes `byte`, or `byte` is appended where the data is
    /// empty; 1: bit `bit` of `ws_at` is flipped; any other: bit `bit` of
    /// `ws_kind` is flipped.
    pub fn mutated(&self, field: u8, pos: usize, byte: u8, bit: u32) -> (r: WhitespaceInput)
        requires
            field == 0 && self.data@.len() > 0 ==> pos < self.data@.len(),
            field == 1 ==> bit < 32,
            field >= 2 ==> bit < 8,
        ensures
            field == 0 && self.data@.len() > 0 ==> r.data@ == self.data@.update(pos as int, byte),
            field == 0 && self.data@.len() == 0 ==> r.data@ == seq![byte],
            field != 0 ==> r.data@ == self.data@,
            field == 1 ==> r.ws_at == self.ws_at ^ (1u32 << bit),
            field != 1 ==> r.ws_at == self.ws_at,
            field >= 2 ==> r.ws_kind == self.ws_kind ^ (1u8 << bit),
            field < 2 ==> r.ws_kind == self.ws_kind,
    {
        let mut data: Vec<u8> = Vec::new();
        let mut i: usize = 0;
        while i < self.data.len()
            invariant
                i <= self.data@.len(),
                data@ == self.data@.take(i as int),
            decreases self.data.len() - i,
        {
            data.push(self.data[i]);
            i = i + 1;
            assert(data@ =~= self.data@.take(i as int));
        }
        assert(data@ =~= self.data@);
        let mut out = WhitespaceInput { data, ws_at: self.ws_at, ws_kind: self.ws_kind };
        if field == 0 {
            if out.data.len() > 0 {
                out.data.set(pos, byte);
            } else {
                out.data.push(byte);
                assert(out.data@ =~= seq![byte]);
            }
        } else if field == 1 {
            out.ws_at = out.ws_at ^ (1u32 << bit);
        } else {
            out.ws_kind = out.ws_kind ^ (1u8 << bit);
        }
        out
    }
}

/// What `describe` shows of a whitespace input reads back as its fields:
/// after `data=` the list of the bytes, after ` ws_at=` decimal digits whose
/// value is the whole `ws_at`, after ` ws_kind=` decimal digits whose value
/// is `ws_kind`.
pub proof fn lemma_whitespace_text_reads_back(w: WhitespaceInput)
    ensures
        exists|at_digits: Seq<char>, kind_digits: Seq<char>|
            {
                &&& w.text() == "data="@ + bytes_debug(w.data@) + " ws_at="@ + at_digits
                    + " ws_kind="@ + kind_digits
                &&& all_decimal_digits(at_digits)
                &&& decimal_value(at_digits) == w.ws_at
                &&& all_decimal_digits(kind_digits)
                &&& decimal_value(kind_digits) == w.ws_kind
            },
{
    lemma_decimal_reads_back(w.ws_at as nat);
    lemma_decimal_reads_back(w.ws_kind as nat);
    let at_digits = decimal(w.ws_at as nat);
    let kind_digits = decimal(w.ws_kind as nat);
    assert(w.text() == "data="@ + bytes_debug(w.data@) + " ws_at="@ + at_digits + " ws_kind="@
        + kind_digits);
}

/// An input of the display property: one byte.
#[derive(Clone, Copy)]
pub struct ByteInput(pub u8);

impl ByteInput {
    /// How the input is shown: `0x` and two hexadecimal digits.
    pub open spec fn text(&self) -> Seq<char> {
        "0x"@ + hex_byte(self.0)
    }

    /// The input as `text` shows it.
    pub fn describe(&self) -> (s: String)
        ensures
            s@ == self.text(),
    {
        let mut s = String::new();
        s.append("0x");
        push_hex_byte(&mut s, self.0);
        s
    }

    /// The byte with bit `bit` flipped.
    pub fn mutated(&self, bit: u32) -> (r: ByteInput)
        requires
            bit < 8,
        ensures
            r.0 == self.0 ^ (1u8 << bit),
    {
        ByteInput(self.0 ^ (1u8 << bit))
    }
}

/// What `describe` shows of a byte input is `0x` and two hexadecimal digits
/// that read back as the whole byte: the first digit's value times sixteen
/// plus the second's is the byte.
pub proof fn lemma_byte_text_reads_back(b: ByteInput)
    ensures
        b.text().len() == 4,
        b.text().subrange(0, 2) == "0x"@,
        hex_char_value(b.text()[2]) matches Some(hi) && hex_char_value(b.text()[3]) matches Some(
            lo,
        ) && hi * 16 + lo == b.0,
{
    reveal_strlit("0x");
    lemma_hex_byte_reads_back(b.0);
    let t = b.text();
    assert(t[2] == hex_byte(b.0)[0]);
    assert(t[3] == hex_byte(b.0)[1]);
    assert(t.subrange(0, 2) =~= "0x"@);
}

} // verus!
