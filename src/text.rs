use vstd::prelude::*;

verus! {

/// Relies on `String::push`: it appends the character at the end of the string.
pub assume_specification[ String::push ](s: &mut String, ch: char)
    ensures
        final(s)@ == old(s)@.push(ch),
;

/// The character of a decimal digit.
pub open spec fn digit(d: nat) -> char {
    if d == 0 {
        '0'
    } else if d == 1 {
        '1'
    } else if d == 2 {
        '2'
    } else if d == 3 {
        '3'
    } else if d == 4 {
        '4'
    } else if d == 5 {
        '5'
    } else if d == 6 {
        '6'
    } else if d == 7 {
        '7'
    } else if d == 8 {
        '8'
    } else {
        '9'
    }
}

/// `n` written with exactly two digits (`n < 100`).
pub open spec fn pad2(n: nat) -> Seq<char> {
    seq![digit(n / 10), digit(n % 10)]
}

/// `n` written with exactly four digits (`n < 10000`).
pub open spec fn pad4(n: nat) -> Seq<char> {
    seq![digit(n / 1000), digit((n / 100) % 10), digit((n / 10) % 10), digit(n % 10)]
}

/// `n` in decimal, without leading zeros.
pub open spec fn decimal(n: nat) -> Seq<char>
    decreases n,
{
    if n < 10 {
        seq![digit(n)]
    } else {
        decimal(n / 10).push(digit(n % 10))
    }
}

pub fn digit_char(d: u8) -> (c: char)
    requires
        d < 10,
    ensures
        c == digit(d as nat),
{
    match d {
        0 => '0',
        1 => '1',
        2 => '2',
        3 => '3',
        4 => '4',
        5 => '5',
        6 => '6',
        7 => '7',
        8 => '8',
        _ => '9',
    }
}

pub fn push_pad2(s: &mut String, n: u8)
    requires
        n < 100,
    ensures
        final(s)@ == old(s)@ + pad2(n as nat),
{
    s.push(digit_char(n / 10));
    s.push(digit_char(n % 10));
}

pub fn push_pad4(s: &mut String, n: u16)
    requires
        n < 10000,
    ensures
        final(s)@ == old(s)@ + pad4(n as nat),
{
    s.push(digit_char((n / 1000) as u8));
    s.push(digit_char(((n / 100) % 10) as u8));
    s.push(digit_char(((n / 10) % 10) as u8));
    s.push(digit_char((n % 10) as u8));
}

pub fn push_decimal(s: &mut String, n: u64)
    ensures
        final(s)@ == old(s)@ + decimal(n as nat),
    decreases n,
{
    if n >= 10 {
        push_decimal(s, n / 10);
    }
    s.push(digit_char((n % 10) as u8));
}

/// Distinct digits have distinct characters.
pub proof fn lemma_digit_injective(a: nat, b: nat)
    requires
        a < 10,
        b < 10,
        digit(a) == digit(b),
    ensures
        a == b,
{
}

/// Two-digit renderings are equal only for equal numbers.
pub proof fn lemma_pad2_injective(a: nat, b: nat)
    requires
        a < 100,
        b < 100,
        pad2(a) == pad2(b),
    ensures
        a == b,
{
    assert(pad2(a)[0] == pad2(b)[0]);
    assert(pad2(a)[1] == pad2(b)[1]);
    lemma_digit_injective(a / 10, b / 10);
    lemma_digit_injective(a % 10, b % 10);
}

/// Four-digit renderings are equal only for equal numbers.
pub proof fn lemma_pad4_injective(a: nat, b: nat)
    requires
        a < 10000,
        b < 10000,
        pad4(a) == pad4(b),
    ensures
        a == b,
{
    assert(pad4(a)[0] == pad4(b)[0]);
    assert(pad4(a)[1] == pad4(b)[1]);
    assert(pad4(a)[2] == pad4(b)[2]);
    assert(pad4(a)[3] == pad4(b)[3]);
    lemma_digit_injective(a / 1000, b / 1000);
    lemma_digit_injective((a / 100) % 10, (b / 100) % 10);
    lemma_digit_injective((a / 10) % 10, (b / 10) % 10);
    lemma_digit_injective(a % 10, b % 10);
}

} // verus!
