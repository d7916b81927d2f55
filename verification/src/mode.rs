//! File modes: their `{:#o}` text and the permission digits read from it.
use vstd::prelude::*;
use crate::text::{digit_char, digits, digits_of, append_chars};

verus! {

/// `8` to the power `k`.
pub open spec fn pow8(k: nat) -> nat
    decreases k,
{
    if k == 0 {
        1
    } else {
        8 * pow8((k - 1) as nat)
    }
}

/// The text of `n` as `format!("{:#o}", n)` prints it: `0o`, then the
/// octal digits.
pub open spec fn octal_text(n: nat) -> Seq<char> {
    seq!['0', 'o'] + digits(n, 8)
}

/// Whether the bit of weight `weight` (a power of two) is set in `mode`.
pub open spec fn mode_bit(mode: nat, weight: nat) -> bool {
    (mode / weight) % 2 == 1
}

/// An octal digit that grants read (or, in the special digit, set-user-ID).
pub open spec fn read_digit(c: char) -> bool {
    c == '4' || c == '5' || c == '6' || c == '7'
}

/// An octal digit that grants write (or, in the special digit, set-group-ID).
pub open spec fn write_digit(c: char) -> bool {
    c == '2' || c == '3' || c == '6' || c == '7'
}

/// An octal digit that grants execute (or, in the special digit, sticky).
pub open spec fn exec_digit(c: char) -> bool {
    c == '1' || c == '3' || c == '5' || c == '7'
}

pub fn is_read_digit(c: char) -> (b: bool)
    ensures
        b == read_digit(c),
{
    c == '4' || c == '5' || c == '6' || c == '7'
}

pub fn is_write_digit(c: char) -> (b: bool)
    ensures
        b == write_digit(c),
{
    c == '2' || c == '3' || c == '6' || c == '7'
}

pub fn is_exec_digit(c: char) -> (b: bool)
    ensures
        b == exec_digit(c),
{
    c == '1' || c == '3' || c == '5' || c == '7'
}

/// `format!("{:#o}", n)`, as characters.
pub fn octal_text_of(n: u32) -> (v: Vec<char>)
    ensures
        v@ == octal_text(n as nat),
{
    let mut v: Vec<char> = Vec::new();
    v.push('0');
    v.push('o');
    let d = digits_of(n as u64, 8);
    append_chars(&mut v, &d);
    assert(v@ =~= octal_text(n as nat));
    v
}

/// The number of octal digits of `n` exceeds `k` (for `k > 0`) exactly
/// when `n` is at least `8^k`; there is always at least one digit.
pub proof fn lemma_octal_len(n: nat, k: nat)
    ensures
        digits(n, 8).len() >= 1,
        k > 0 ==> (n >= pow8(k) <==> digits(n, 8).len() > k),
    decreases n,
{
    lemma_pow8_at_least(k);
    if n < 8 {
        assert(digits(n, 8).len() == 1);
    } else {
        let m = n / 8;
        assert(digits(n, 8) == digits(m, 8).push(digit_char(n % 8)));
        if k > 1 {
            lemma_octal_len(m, (k - 1) as nat);
            lemma_pow8_at_least((k - 1) as nat);
            let p = pow8((k - 1) as nat);
            assert(pow8(k) == 8 * p);
            assert(n >= 8 * p <==> n / 8 >= p) by (nonlinear_arith)
                requires
                    p >= 1,
            {}
        } else {
            lemma_octal_len(m, 1);
            assert(pow8(0) == 1);
            assert(pow8(1) == 8);
        }
    }
}

pub proof fn lemma_pow8_at_least(k: nat)
    ensures
        pow8(k) >= 1,
        k > 0 ==> pow8(k) >= 8,
    decreases k,
{
    if k > 0 {
        lemma_pow8_at_least((k - 1) as nat);
    }
}

/// The octal digit `k` places from the end of `n`'s octal digits is the
/// digit of `(n / 8^k) % 8`.
pub proof fn lemma_octal_digit_at(n: nat, k: nat)
    requires
        k < digits(n, 8).len(),
    ensures
        digits(n, 8)[digits(n, 8).len() - 1 - k] == digit_char((n / pow8(k)) % 8),
    decreases n,
{
    if k == 0 {
        assert(pow8(0) == 1);
        assert(n / 1 == n);
        if n >= 8 {
            assert(digits(n, 8) == digits(n / 8, 8).push(digit_char(n % 8)));
        }
    } else {
        if n < 8 {
            assert(digits(n, 8).len() == 1);
        } else {
            let m = n / 8;
            lemma_octal_digit_at(m, (k - 1) as nat);
            assert(digits(n, 8) == digits(m, 8).push(digit_char(n % 8)));
            lemma_pow8_at_least((k - 1) as nat);
            vstd::arithmetic::div_mod::lemma_div_denominator(
                n as int,
                8,
                pow8((k - 1) as nat) as int,
            );
            assert(pow8(k) == 8 * pow8((k - 1) as nat));
            assert(digits(m, 8).len() == digits(n, 8).len() - 1);
        }
    }
}

/// The last octal digit of `q` grants read exactly when the bit of weight
/// 4 is set in `q`; likewise write with weight 2 and execute with weight 1.
pub proof fn lemma_digit_classes(q: nat)
    ensures
        read_digit(digit_char(q % 8)) == ((q / 4) % 2 == 1),
        write_digit(digit_char(q % 8)) == ((q / 2) % 2 == 1),
        exec_digit(digit_char(q % 8)) == (q % 2 == 1),
{
}

} // verus!
