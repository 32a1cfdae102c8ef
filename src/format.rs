//! Text that the print syscalls produce from a register value.
use vstd::prelude::*;

verus! {

/// The character of digit `d` (lower case beyond nine).
pub open spec fn digit_char(d: nat) -> char {
    if d < 10 {
        (48 + d) as char
    } else {
        (87 + d) as char
    }
}

/// The digits of `n` in base `radix`, most significant first, without
/// leading zeros (zero itself is one digit).
pub open spec fn digits(n: nat, radix: nat) -> Seq<char>
    recommends
        2 <= radix <= 16,
    decreases n via digits_decreases
{
    if n < radix || radix < 2 {
        seq![digit_char(n % radix)]
    } else {
        digits(n / radix, radix).push(digit_char(n % radix))
    }
}

/// The register value read as a two's complement 32-bit integer.
pub open spec fn signed_value(v: u32) -> int {
    if v >= 0x8000_0000 {
        v as int - 0x1_0000_0000
    } else {
        v as int
    }
}

/// Decimal text of the register value read as a signed integer.
pub open spec fn signed_decimal(v: u32) -> Seq<char> {
    if signed_value(v) < 0 {
        seq!['-'] + digits((-signed_value(v)) as nat, 10)
    } else {
        digits(v as nat, 10)
    }
}

#[via_fn]
proof fn digits_decreases(n: nat, radix: nat) {
    if !(n < radix || radix < 2) {
        vstd::arithmetic::div_mod::lemma_div_decreases(n as int, radix as int);
    }
}

fn digit(d: u32) -> (c: char)
    requires
        d < 16,
    ensures
        c == digit_char(d as nat),
{
    if d < 10 {
        ((48 + d) as u8) as char
    } else {
        ((87 + d) as u8) as char
    }
}

/// Appends the digits of `n` in base `radix`.
pub fn push_digits(out: &mut Vec<char>, n: u32, radix: u32)
    requires
        2 <= radix <= 16,
    ensures
        final(out)@ == old(out)@ + digits(n as nat, radix as nat),
    decreases n,
{
    if n >= radix {
        proof {
            vstd::arithmetic::div_mod::lemma_div_decreases(n as int, radix as int);
        }
        push_digits(out, n / radix, radix);
    }
    out.push(digit(n % radix));
    proof {
        if n >= radix {
            assert(old(out)@ + digits(n as nat, radix as nat) == old(out)@ + digits(
                (n / radix) as nat,
                radix as nat,
            ) + seq![digit_char((n % radix) as nat)]);
        }
    }
}

/// Decimal text of `v` read as a signed 32-bit integer.
pub fn format_signed(v: u32) -> (r: Vec<char>)
    ensures
        r@ == signed_decimal(v),
{
    let mut out: Vec<char> = Vec::new();
    if v >= 0x8000_0000 {
        out.push('-');
        let magnitude: u32 = ((0x1_0000_0000u64 - v as u64) as u32);
        push_digits(&mut out, magnitude, 10);
    } else {
        push_digits(&mut out, v, 10);
    }
    out
}

/// Decimal text of `v` read as an unsigned integer.
pub fn format_unsigned(v: u32) -> (r: Vec<char>)
    ensures
        r@ == digits(v as nat, 10),
{
    let mut out: Vec<char> = Vec::new();
    push_digits(&mut out, v, 10);
    proof {
        assert(Seq::<char>::empty() + digits(v as nat, 10) == digits(v as nat, 10));
    }
    out
}

/// Lower-case hexadecimal text of the 32 bits of `v` (a negative value
/// shows its two's complement).
pub fn format_hex(v: u32) -> (r: Vec<char>)
    ensures
        r@ == digits(v as nat, 16),
{
    let mut out: Vec<char> = Vec::new();
    push_digits(&mut out, v, 16);
    proof {
        assert(Seq::<char>::empty() + digits(v as nat, 16) == digits(v as nat, 16));
    }
    out
}

/// Binary text of the 32 bits of `v`.
pub fn format_binary(v: u32) -> (r: Vec<char>)
    ensures
        r@ == digits(v as nat, 2),
{
    let mut out: Vec<char> = Vec::new();
    push_digits(&mut out, v, 2);
    proof {
        assert(Seq::<char>::empty() + digits(v as nat, 2) == digits(v as nat, 2));
    }
    out
}

} // verus!
