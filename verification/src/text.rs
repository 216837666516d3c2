//! Building text byte by byte: literal pieces, and numbers in the decimal and
//! hexadecimal notations that the emitted assembly uses.

use vstd::prelude::*;
use vstd::slice::*;
use vstd::string::*;

verus! {

/// The ASCII character of one hexadecimal digit, in lower case.
pub open spec fn hex_digit(d: int) -> u8 {
    if d < 10 {
        (48 + d) as u8
    } else {
        (87 + d) as u8
    }
}

/// The hexadecimal digits of `n`, most significant first, without leading
/// zeros; a single `0` for zero.
pub open spec fn hex_digits(n: nat) -> Seq<u8>
    decreases n,
{
    if n < 16 {
        seq![hex_digit(n as int)]
    } else {
        hex_digits(n / 16).push(hex_digit((n % 16) as int))
    }
}

/// `n` in hexadecimal behind the prefix `0x`.
pub open spec fn hex(n: nat) -> Seq<u8> {
    seq![48u8, 120u8] + hex_digits(n)
}

/// The decimal digits of `n`, most significant first, without leading zeros.
pub open spec fn dec_digits(n: nat) -> Seq<u8>
    decreases n,
{
    if n < 10 {
        seq![(48 + n) as u8]
    } else {
        dec_digits(n / 10).push((48 + n % 10) as u8)
    }
}

/// `i` in decimal, with a minus sign in front of a negative number.
pub open spec fn dec(i: int) -> Seq<u8> {
    if i < 0 {
        seq![45u8] + dec_digits((-i) as nat)
    } else {
        dec_digits(i as nat)
    }
}

/// `i` in hexadecimal behind `0x`, with a minus sign in front of a negative
/// number.
pub open spec fn signed_hex(i: int) -> Seq<u8> {
    if i < 0 {
        seq![45u8] + hex((-i) as nat)
    } else {
        hex(i as nat)
    }
}

/// Appends the bytes of `s`.
pub fn push_bytes(out: &mut Vec<u8>, s: &[u8])
    ensures
        final(out)@ == old(out)@ + s@,
{
    out.extend_from_slice(s);
    assert(out@ =~= old(out)@ + s@);
}

/// Appends the UTF-8 bytes of `s`.
pub fn push_str(out: &mut Vec<u8>, s: &str)
    ensures
        final(out)@ == old(out)@ + s.spec_bytes(),
{
    push_bytes(out, s.as_bytes());
}

fn push_hex_digits(out: &mut Vec<u8>, n: u128)
    ensures
        final(out)@ == old(out)@ + hex_digits(n as nat),
    decreases n,
{
    if n >= 16 {
        push_hex_digits(out, n / 16);
    }
    let d: u8 = (n % 16) as u8;
    let c: u8 = if d < 10 {
        48 + d
    } else {
        87 + d
    };
    out.push(c);
    assert(out@ =~= old(out)@ + hex_digits(n as nat));
}

/// Appends `n` in hexadecimal behind the prefix `0x`.
pub fn push_hex(out: &mut Vec<u8>, n: u128)
    ensures
        final(out)@ == old(out)@ + hex(n as nat),
{
    out.push(48u8);
    out.push(120u8);
    push_hex_digits(out, n);
    assert(out@ =~= old(out)@ + hex(n as nat));
}

fn push_dec_digits(out: &mut Vec<u8>, n: u128)
    ensures
        final(out)@ == old(out)@ + dec_digits(n as nat),
    decreases n,
{
    if n >= 10 {
        push_dec_digits(out, n / 10);
    }
    let d: u8 = (n % 10) as u8;
    out.push(48 + d);
    assert(out@ =~= old(out)@ + dec_digits(n as nat));
}

/// Appends `n` in decimal.
pub fn push_dec(out: &mut Vec<u8>, n: u128)
    ensures
        final(out)@ == old(out)@ + dec(n as int),
{
    push_dec_digits(out, n);
}

/// The magnitude of `i`.
pub fn magnitude(i: i64) -> (m: u128)
    ensures
        i >= 0 ==> m == i,
        i < 0 ==> m == -i,
{
    if i >= 0 {
        i as u128
    } else if i == i64::MIN {
        9223372036854775808u128
    } else {
        (-i) as u128
    }
}

/// Appends `i` in decimal, with a minus sign in front of a negative number.
pub fn push_int(out: &mut Vec<u8>, i: i64)
    ensures
        final(out)@ == old(out)@ + dec(i as int),
{
    if i < 0 {
        out.push(45u8);
        push_dec_digits(out, magnitude(i));
        assert(out@ =~= old(out)@ + dec(i as int));
    } else {
        push_dec_digits(out, magnitude(i));
    }
}

/// Appends `i` in hexadecimal behind `0x`, with a minus sign in front of a
/// negative number.
pub fn push_signed_hex(out: &mut Vec<u8>, i: i64)
    ensures
        final(out)@ == old(out)@ + signed_hex(i as int),
{
    if i < 0 {
        out.push(45u8);
        push_hex(out, magnitude(i));
        assert(out@ =~= old(out)@ + signed_hex(i as int));
    } else {
        push_hex(out, magnitude(i));
    }
}

/// The number that `text` is in decimal notation: `None` where `text` is
/// empty or holds a byte that is no digit.
pub open spec fn decimal_value(text: Seq<u8>) -> Option<nat>
    decreases text.len(),
{
    if text.len() == 0 {
        None
    } else if !(48 <= text.last() <= 57) {
        None
    } else if text.len() == 1 {
        Some((text.last() - 48) as nat)
    } else {
        match decimal_value(text.drop_last()) {
            Some(v) => Some(v * 10 + (text.last() - 48) as nat),
            None => None,
        }
    }
}

/// The number that `text` is in decimal notation, where it is one that
/// fits in 64 bits.
pub fn parse_decimal(text: &[u8]) -> (r: Option<u64>)
    ensures
        match r {
            Some(v) => decimal_value(text@) == Some(v as nat),
            None => decimal_value(text@) is None || decimal_value(text@)->0 > u64::MAX,
        },
{
    if text.len() == 0 {
        return None;
    }
    let mut value: u64 = 0;
    let mut overflow = false;
    let mut i: usize = 0;
    while i < text.len()
        invariant
            i <= text@.len(),
            text@.len() > 0,
            i > 0 && !overflow ==> decimal_value(text@.subrange(0, i as int)) == Some(value as nat),
            i > 0 && overflow ==> decimal_value(text@.subrange(0, i as int)) is Some
                && decimal_value(text@.subrange(0, i as int))->0 > u64::MAX,
            i == 0 ==> value == 0 && !overflow,
        decreases text@.len() - i,
    {
        let b = text[i];
        proof {
            let now = text@.subrange(0, i + 1);
            assert(now.drop_last() =~= text@.subrange(0, i as int));
            assert(now.last() == b);
            if !(48 <= b <= 57) {
                lemma_decimal_needs_digits(text@, i as int);
            }
        }
        if !(48 <= b && b <= 57) {
            return None;
        }
        let d = (b - 48) as u64;
        if !overflow {
            match value.checked_mul(10) {
                Some(v) => match v.checked_add(d) {
                    Some(w) => {
                        value = w;
                    },
                    None => {
                        overflow = true;
                    },
                },
                None => {
                    overflow = true;
                },
            }
        }
        i += 1;
    }
    assert(text@.subrange(0, i as int) =~= text@);
    if overflow {
        None
    } else {
        Some(value)
    }
}

/// A text with a byte that is no digit is no number.
pub proof fn lemma_decimal_needs_digits(text: Seq<u8>, at: int)
    requires
        0 <= at < text.len(),
        !(48 <= text[at] <= 57),
    ensures
        decimal_value(text) is None,
    decreases text.len(),
{
    if at < text.len() - 1 {
        lemma_decimal_needs_digits(text.drop_last(), at);
    }
}

/// Whether two byte strings hold the same bytes.
pub fn bytes_eq(a: &[u8], b: &[u8]) -> (r: bool)
    ensures
        r == (a@ == b@),
{
    if a.len() != b.len() {
        return false;
    }
    let mut i: usize = 0;
    while i < a.len()
        invariant
            a@.len() == b@.len(),
            i <= a@.len(),
            forall|k: int| 0 <= k < i ==> a@[k] == b@[k],
        decreases a@.len() - i,
    {
        if a[i] != b[i] {
            return false;
        }
        i += 1;
    }
    assert(a@ =~= b@);
    true
}

/// Whether two strings hold the same text.
pub fn str_eq(a: &str, b: &str) -> (r: bool)
    ensures
        r == (a@ == b@),
{
    proof {
        vstd::utf8::encode_utf8_decode_utf8(a@);
        vstd::utf8::encode_utf8_decode_utf8(b@);
    }
    bytes_eq(a.as_bytes(), b.as_bytes())
}

/// The character of one decimal digit.
pub open spec fn digit_char(d: int) -> Seq<char> {
    if d == 0 {
        "0"@
    } else if d == 1 {
        "1"@
    } else if d == 2 {
        "2"@
    } else if d == 3 {
        "3"@
    } else if d == 4 {
        "4"@
    } else if d == 5 {
        "5"@
    } else if d == 6 {
        "6"@
    } else if d == 7 {
        "7"@
    } else if d == 8 {
        "8"@
    } else {
        "9"@
    }
}

/// The decimal digits of `n` as text, most significant first.
pub open spec fn dec_text_digits(n: nat) -> Seq<char>
    decreases n,
{
    if n < 10 {
        digit_char(n as int)
    } else {
        dec_text_digits(n / 10) + digit_char((n % 10) as int)
    }
}

/// `i` in decimal as text, with a minus sign in front of a negative
/// number.
pub open spec fn dec_text(i: int) -> Seq<char> {
    if i < 0 {
        "-"@ + dec_text_digits((-i) as nat)
    } else {
        dec_text_digits(i as nat)
    }
}

fn digit_str(d: u8) -> (s: &'static str)
    requires
        d < 10,
    ensures
        s@ == digit_char(d as int),
{
    match d {
        0 => "0",
        1 => "1",
        2 => "2",
        3 => "3",
        4 => "4",
        5 => "5",
        6 => "6",
        7 => "7",
        8 => "8",
        _ => "9",
    }
}

fn append_digits(out: &mut String, n: u128)
    ensures
        final(out)@ == old(out)@ + dec_text_digits(n as nat),
    decreases n,
{
    if n >= 10 {
        append_digits(out, n / 10);
    }
    out.append(digit_str((n % 10) as u8));
    assert(out@ =~= old(out)@ + dec_text_digits(n as nat));
}

/// Appends `i` in decimal.
pub fn append_int(out: &mut String, i: i64)
    ensures
        final(out)@ == old(out)@ + dec_text(i as int),
{
    if i < 0 {
        out.append("-");
        append_digits(out, magnitude(i));
        assert(out@ =~= old(out)@ + dec_text(i as int));
    } else {
        append_digits(out, magnitude(i));
    }
}

/// An owned copy of a byte string.
pub fn to_vec(s: &[u8]) -> (v: Vec<u8>)
    ensures
        v@ == s@,
{
    slice_to_vec(s)
}

/// An owned copy of the UTF-8 bytes of `s`.
pub fn str_to_vec(s: &str) -> (v: Vec<u8>)
    ensures
        v@ == s.spec_bytes(),
{
    slice_to_vec(s.as_bytes())
}

} // verus!
