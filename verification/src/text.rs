//! Text that the library compares and writes: equality of strings, and
//! numbers in decimal and hexadecimal.

use vstd::prelude::*;
use vstd::string::StringExecFns;
use vstd::utf8::encode_utf8_decode_utf8;

verus! {

/// Whether two byte strings are the same.
pub fn bytes_eq(a: &[u8], b: &[u8]) -> (same: bool)
    ensures
        same == (a@ == b@),
{
    if a.len() != b.len() {
        return false;
    }
    let mut at: usize = 0;
    while at < a.len()
        invariant
            at <= a@.len() == b@.len(),
            forall|i: int| 0 <= i < at ==> a@[i] == b@[i],
        decreases a@.len() - at,
    {
        if a[at] != b[at] {
            return false;
        }
        at += 1;
    }
    assert(a@ =~= b@);
    true
}

/// Whether two texts are the same.
pub fn text_eq(a: &str, b: &str) -> (same: bool)
    ensures
        same == (a@ == b@),
{
    proof {
        encode_utf8_decode_utf8(a@);
        encode_utf8_decode_utf8(b@);
    }
    bytes_eq(a.as_bytes(), b.as_bytes())
}

/// The character for a digit below sixteen, in lower case.
pub open spec fn digit_char(d: int) -> char
    recommends
        0 <= d < 16,
{
    seq!['0', '1', '2', '3', '4', '5', '6', '7', '8', '9', 'a', 'b', 'c', 'd', 'e', 'f'][d]
}

/// `n` in decimal, without leading zeros.
pub open spec fn decimal_text(n: nat) -> Seq<char>
    decreases n,
{
    if n < 10 {
        seq![digit_char(n as int)]
    } else {
        decimal_text(n / 10).push(digit_char((n % 10) as int))
    }
}

/// The `i`-th hexadecimal digit of `v`, counted from the most significant.
pub open spec fn hex_digit_at(v: u32, i: int) -> char
    recommends
        0 <= i < 8,
{
    digit_char(
        if i == 0 {
            (v / 0x1000_0000) as int
        } else if i == 1 {
            (v / 0x100_0000) as int % 16
        } else if i == 2 {
            (v / 0x10_0000) as int % 16
        } else if i == 3 {
            (v / 0x1_0000) as int % 16
        } else if i == 4 {
            (v / 0x1000) as int % 16
        } else if i == 5 {
            (v / 0x100) as int % 16
        } else if i == 6 {
            (v / 0x10) as int % 16
        } else {
            v as int % 16
        },
    )
}

/// `v` as `0x` and eight hexadecimal digits in lower case.
pub open spec fn hex_text(v: u32) -> Seq<char> {
    seq!['0', 'x'] + Seq::new(8, |i: int| hex_digit_at(v, i))
}

/// The text of one digit.
fn digit_str(d: u8) -> (text: &'static str)
    requires
        d < 16,
    ensures
        text@ == seq![digit_char(d as int)],
{
    let text = match d {
        0 => "0",
        1 => "1",
        2 => "2",
        3 => "3",
        4 => "4",
        5 => "5",
        6 => "6",
        7 => "7",
        8 => "8",
        9 => "9",
        10 => "a",
        11 => "b",
        12 => "c",
        13 => "d",
        14 => "e",
        _ => "f",
    };
    proof {
        reveal_strlit("0");
        reveal_strlit("1");
        reveal_strlit("2");
        reveal_strlit("3");
        reveal_strlit("4");
        reveal_strlit("5");
        reveal_strlit("6");
        reveal_strlit("7");
        reveal_strlit("8");
        reveal_strlit("9");
        reveal_strlit("a");
        reveal_strlit("b");
        reveal_strlit("c");
        reveal_strlit("d");
        reveal_strlit("e");
        reveal_strlit("f");
        assert(text@ =~= seq![digit_char(d as int)]);
    }
    text
}

/// Appends `n` in decimal to `out`.
pub fn push_decimal(out: &mut String, n: u64)
    ensures
        final(out)@ == old(out)@ + decimal_text(n as nat),
    decreases n,
{
    if n >= 10 {
        push_decimal(out, n / 10);
    }
    out.append(digit_str((n % 10) as u8));
    assert(out@ =~= old(out)@ + decimal_text(n as nat));
}

/// Appends `v` to `out` as `0x` and eight hexadecimal digits.
pub fn push_hex(out: &mut String, v: u32)
    ensures
        final(out)@ == old(out)@ + hex_text(v),
{
    proof {
        reveal_strlit("0x");
    }
    out.append("0x");
    out.append(digit_str((v / 0x1000_0000) as u8));
    out.append(digit_str(((v / 0x100_0000) % 16) as u8));
    out.append(digit_str(((v / 0x10_0000) % 16) as u8));
    out.append(digit_str(((v / 0x1_0000) % 16) as u8));
    out.append(digit_str(((v / 0x1000) % 16) as u8));
    out.append(digit_str(((v / 0x100) % 16) as u8));
    out.append(digit_str(((v / 0x10) % 16) as u8));
    out.append(digit_str((v % 16) as u8));
    assert(out@ =~= old(out)@ + hex_text(v));
}

} // verus!
