//! Numbers as text.

use vstd::prelude::*;
use vstd::string::*;

verus! {

/// The character of a decimal or lower-case hexadecimal digit.
pub open spec fn digit_char(d: nat) -> char {
    if d == 0 { '0' } else if d == 1 { '1' } else if d == 2 { '2' } else if d == 3 { '3' }
    else if d == 4 { '4' } else if d == 5 { '5' } else if d == 6 { '6' } else if d == 7 { '7' }
    else if d == 8 { '8' } else if d == 9 { '9' } else if d == 10 { 'a' } else if d == 11 { 'b' }
    else if d == 12 { 'c' } else if d == 13 { 'd' } else if d == 14 { 'e' } else { 'f' }
}

/// The character of an upper-case hexadecimal digit.
pub open spec fn upper_digit_char(d: nat) -> char {
    if d == 10 { 'A' } else if d == 11 { 'B' } else if d == 12 { 'C' } else if d == 13 { 'D' }
    else if d == 14 { 'E' } else if d == 15 { 'F' } else { digit_char(d) }
}

/// `n` in decimal, with no leading zeros.
pub open spec fn decimal(n: nat) -> Seq<char>
    decreases n,
{
    if n < 10 {
        seq![digit_char(n)]
    } else {
        decimal(n / 10).push(digit_char(n % 10))
    }
}

/// `n` in decimal, padded with zeros on the left to at least `width` characters.
pub open spec fn decimal_padded(n: nat, width: nat) -> Seq<char>
    decreases width,
{
    if width <= 1 {
        decimal(n)
    } else {
        decimal_padded(n / 10, (width - 1) as nat).push(digit_char(n % 10))
    }
}

/// A byte as two upper-case hexadecimal digits.
pub open spec fn hex2_upper(b: u8) -> Seq<char> {
    seq![upper_digit_char(b as nat / 16), upper_digit_char(b as nat % 16)]
}

/// A byte as two lower-case hexadecimal digits.
pub open spec fn hex2_lower(b: u8) -> Seq<char> {
    seq![digit_char(b as nat / 16), digit_char(b as nat % 16)]
}

/// Append a string literal.
pub fn push_text(s: &mut String, t: &str)
    ensures
        final(s)@ == old(s)@ + t@,
{
    s.append(t);
}

/// Append one digit.
pub fn push_digit(s: &mut String, d: u8)
    requires
        d < 16,
    ensures
        final(s)@ == old(s)@.push(digit_char(d as nat)),
{
    let ghost before = s@;
    if d == 0 { s.append("0"); proof { reveal_strlit("0"); } }
    else if d == 1 { s.append("1"); proof { reveal_strlit("1"); } }
    else if d == 2 { s.append("2"); proof { reveal_strlit("2"); } }
    else if d == 3 { s.append("3"); proof { reveal_strlit("3"); } }
    else if d == 4 { s.append("4"); proof { reveal_strlit("4"); } }
    else if d == 5 { s.append("5"); proof { reveal_strlit("5"); } }
    else if d == 6 { s.append("6"); proof { reveal_strlit("6"); } }
    else if d == 7 { s.append("7"); proof { reveal_strlit("7"); } }
    else if d == 8 { s.append("8"); proof { reveal_strlit("8"); } }
    else if d == 9 { s.append("9"); proof { reveal_strlit("9"); } }
    else if d == 10 { s.append("a"); proof { reveal_strlit("a"); } }
    else if d == 11 { s.append("b"); proof { reveal_strlit("b"); } }
    else if d == 12 { s.append("c"); proof { reveal_strlit("c"); } }
    else if d == 13 { s.append("d"); proof { reveal_strlit("d"); } }
    else if d == 14 { s.append("e"); proof { reveal_strlit("e"); } }
    else { s.append("f"); proof { reveal_strlit("f"); } }
    assert(s@ =~= before.push(digit_char(d as nat)));
}

/// Append one upper-case hexadecimal digit.
pub fn push_upper_digit(s: &mut String, d: u8)
    requires
        d < 16,
    ensures
        final(s)@ == old(s)@.push(upper_digit_char(d as nat)),
{
    let ghost before = s@;
    if d == 10 { s.append("A"); proof { reveal_strlit("A"); } }
    else if d == 11 { s.append("B"); proof { reveal_strlit("B"); } }
    else if d == 12 { s.append("C"); proof { reveal_strlit("C"); } }
    else if d == 13 { s.append("D"); proof { reveal_strlit("D"); } }
    else if d == 14 { s.append("E"); proof { reveal_strlit("E"); } }
    else if d == 15 { s.append("F"); proof { reveal_strlit("F"); } }
    else { push_digit(s, d); }
    assert(s@ =~= before.push(upper_digit_char(d as nat)));
}

/// Append `n` in decimal.
pub fn push_decimal(s: &mut String, n: u64)
    ensures
        final(s)@ == old(s)@ + decimal(n as nat),
    decreases n,
{
    let ghost before = s@;
    if n >= 10 {
        push_decimal(s, n / 10);
    }
    push_digit(s, (n % 10) as u8);
    assert(s@ =~= before + decimal(n as nat));
}

/// Append `n` in decimal, zero-padded to at least `width` characters.
pub fn push_decimal_padded(s: &mut String, n: u64, width: u8)
    ensures
        final(s)@ == old(s)@ + decimal_padded(n as nat, width as nat),
    decreases width,
{
    let ghost before = s@;
    if width <= 1 {
        push_decimal(s, n);
    } else {
        push_decimal_padded(s, n / 10, width - 1);
        push_digit(s, (n % 10) as u8);
    }
    assert(s@ =~= before + decimal_padded(n as nat, width as nat));
}

/// Append a byte as two upper-case hexadecimal digits.
pub fn push_hex2_upper(s: &mut String, b: u8)
    ensures
        final(s)@ == old(s)@ + hex2_upper(b),
{
    let ghost before = s@;
    push_upper_digit(s, b / 16);
    push_upper_digit(s, b % 16);
    assert(s@ =~= before + hex2_upper(b));
}

/// Append a byte as two lower-case hexadecimal digits.
pub fn push_hex2_lower(s: &mut String, b: u8)
    ensures
        final(s)@ == old(s)@ + hex2_lower(b),
{
    let ghost before = s@;
    push_digit(s, b / 16);
    push_digit(s, b % 16);
    assert(s@ =~= before + hex2_lower(b));
}

/// A byte string as text, when it is UTF-8: `core::str::from_utf8`. It succeeds exactly
/// on valid UTF-8, and the text has those bytes.
#[verifier::external_body]
pub(crate) fn utf8<'a>(b: &'a [u8]) -> (r: Option<&'a str>)
    ensures
        match r {
            Some(s) => s.spec_bytes() == b@ && vstd::utf8::valid_utf8(b@),
            None => !vstd::utf8::valid_utf8(b@),
        },
{
    core::str::from_utf8(b).ok()
}

/// Bytes below 0x80 are UTF-8.
pub proof fn lemma_ascii_is_utf8(b: Seq<u8>)
    requires
        forall|i: int| 0 <= i < b.len() ==> b[i] < 0x80,
    ensures
        vstd::utf8::valid_utf8(b),
    decreases b.len(),
{
    if b.len() > 0 {
        let first = b[0];
        assert(first & 0x80 == 0 && (first & 0x7F) as u32 <= 0x7F) by (bit_vector)
            requires
                first < 0x80,
        ;
        assert(vstd::utf8::valid_first_scalar(b));
        assert(vstd::utf8::pop_first_scalar(b) =~= b.skip(1));
        lemma_ascii_is_utf8(b.skip(1));
    }
}

} // verus!
