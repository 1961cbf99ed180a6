//! Decimal and hexadecimal rendering of numbers into strings.

use vstd::prelude::*;
use vstd::string::StringExecFns;

verus! {

/// The character of digit `d` (0-9, then a-f).
pub open spec fn digit_char(d: nat) -> char {
    if d < 10 { (d + 48) as char } else { (d - 10 + 97) as char }
}

/// The digits of `v` in base `b`, most significant first, without leading zeros.
pub open spec fn digits(v: nat, b: nat) -> Seq<char>
    decreases v,
{
    if b < 2 || v < b {
        seq![digit_char(v % 16)]
    } else {
        proof {
            assert(v / b < v) by (nonlinear_arith) requires b >= 2, v >= b;
        }
        digits(v / b, b).push(digit_char(v % b))
    }
}

/// The one-character string of digit `d`.
pub fn digit_str(d: u64) -> (r: &'static str)
    requires d < 16,
    ensures r@ == seq![digit_char(d as nat)],
{
    proof {
        reveal_strlit("0"); reveal_strlit("1"); reveal_strlit("2"); reveal_strlit("3");
        reveal_strlit("4"); reveal_strlit("5"); reveal_strlit("6"); reveal_strlit("7");
        reveal_strlit("8"); reveal_strlit("9"); reveal_strlit("a"); reveal_strlit("b");
        reveal_strlit("c"); reveal_strlit("d"); reveal_strlit("e"); reveal_strlit("f");
    }
    if d == 0 { "0" } else if d == 1 { "1" } else if d == 2 { "2" } else if d == 3 { "3" }
    else if d == 4 { "4" } else if d == 5 { "5" } else if d == 6 { "6" } else if d == 7 { "7" }
    else if d == 8 { "8" } else if d == 9 { "9" } else if d == 10 { "a" } else if d == 11 { "b" }
    else if d == 12 { "c" } else if d == 13 { "d" } else if d == 14 { "e" } else { "f" }
}

/// Append the digits of `v` in base `b` (10 or 16).
pub fn push_digits(s: &mut String, v: u64, b: u64)
    requires b == 10 || b == 16,
    ensures final(s)@ == old(s)@ + digits(v as nat, b as nat),
    decreases v,
{
    if v >= b {
        push_digits(s, v / b, b);
    }
    s.append(digit_str(v % b));
    proof {
        if v >= b {
            assert(digits(v as nat, b as nat) == digits((v / b) as nat, b as nat).push(digit_char((v % b) as nat)));
        } else {
            assert(v % 16 == v % b);
        }
    }
}

/// `v` as exactly `width` lowercase hexadecimal digits: its low `4 * width` bits.
pub open spec fn hex_fixed(v: nat, width: nat) -> Seq<char>
    decreases width,
{
    if width == 0 { Seq::empty() } else { hex_fixed(v / 16, (width - 1) as nat).push(digit_char(v % 16)) }
}

/// Append `v` as exactly `width` lowercase hexadecimal digits.
pub fn push_hex_fixed(s: &mut String, v: u64, width: u64)
    ensures final(s)@ == old(s)@ + hex_fixed(v as nat, width as nat),
    decreases width,
{
    if width > 0 {
        push_hex_fixed(s, v / 16, width - 1);
        s.append(digit_str(v % 16));
    }
}

/// The decimal rendering of `v`.
pub fn decimal(v: u64) -> (r: String)
    ensures r@ == digits(v as nat, 10),
{
    let mut s = String::new();
    push_digits(&mut s, v, 10);
    s
}

/// The lowercase hexadecimal rendering of `v` (no prefix).
pub fn hex(v: u64) -> (r: String)
    ensures r@ == digits(v as nat, 16),
{
    let mut s = String::new();
    push_digits(&mut s, v, 16);
    s
}

} // verus!
