//! Numbers as ASCII text.

use vstd::prelude::*;

verus! {

/// The decimal digits of `n`, as ASCII.
pub open spec fn decimal(n: nat) -> Seq<u8>
    decreases n,
{
    if n < 10 {
        seq![(48 + n) as u8]
    } else {
        decimal(n / 10).push((48 + n % 10) as u8)
    }
}

/// The way an integer is written: its digits, after a minus sign where it is
/// negative.
pub open spec fn signed_decimal(n: int) -> Seq<u8> {
    if n < 0 {
        seq![45u8] + decimal((-n) as nat)
    } else {
        decimal(n as nat)
    }
}

/// The digits of `n`, with as many `fill` bytes before them as it takes to
/// make `width` bytes; the digits alone where they are as many or more.
pub open spec fn padded(n: nat, width: nat, fill: u8) -> Seq<u8> {
    let digits = decimal(n);
    if digits.len() >= width {
        digits
    } else {
        Seq::new((width - digits.len()) as nat, |i: int| fill) + digits
    }
}

/// Appends the digits of `n`.
pub fn push_decimal(out: &mut Vec<u8>, n: u128)
    ensures
        final(out)@ == old(out)@ + decimal(n as nat),
    decreases n,
{
    if n >= 10 {
        push_decimal(out, n / 10);
    }
    out.push((48 + n % 10) as u8);
}

/// Appends an integer: its digits, after a minus sign where it is negative.
pub fn push_signed(out: &mut Vec<u8>, n: i32)
    ensures
        final(out)@ == old(out)@ + signed_decimal(n as int),
{
    if n < 0 {
        out.push(45);
        let magnitude: u128 = (-(n as i64)) as u128;
        push_decimal(out, magnitude);
    } else {
        push_decimal(out, n as u128);
    }
}

/// Appends the digits of `n`, filled up from the left to `width` bytes.
pub fn push_padded(out: &mut Vec<u8>, n: u128, width: usize, fill: u8)
    ensures
        final(out)@ == old(out)@ + padded(n as nat, width as nat, fill),
{
    let mut digits: Vec<u8> = Vec::new();
    push_decimal(&mut digits, n);
    let ghost before = out@;
    let mut k: usize = digits.len();
    let ghost first = k;
    while k < width
        invariant
            first <= k,
            first == digits@.len(),
            k <= width || k == first,
            out@ == before + Seq::new((k - first) as nat, |i: int| fill),
        decreases width - k,
    {
        out.push(fill);
        k = k + 1;
    }
    let ghost filled = out@;
    let mut i: usize = 0;
    while i < digits.len()
        invariant
            i <= digits@.len(),
            out@ == filled + digits@.subrange(0, i as int),
        decreases digits@.len() - i,
    {
        out.push(digits[i]);
        i = i + 1;
    }
    assert(out@ == before + padded(n as nat, width as nat, fill));
}

} // verus!
