//! Decimal rendering of token counters.
//!
//! Token ids are the values of a monotonically increasing counter rendered
//! as decimal strings.  Injectivity of the rendering is what makes minted
//! ids distinct, so it is proved here.

use vstd::prelude::*;
use crate::strbuild::push_char;

verus! {

/// The decimal digit character for `d` (meaningful for `d < 10`).
pub open spec fn dec_digit(d: nat) -> char {
    if d == 0 { '0' }
    else if d == 1 { '1' }
    else if d == 2 { '2' }
    else if d == 3 { '3' }
    else if d == 4 { '4' }
    else if d == 5 { '5' }
    else if d == 6 { '6' }
    else if d == 7 { '7' }
    else if d == 8 { '8' }
    else { '9' }
}

/// The decimal rendering of `n`, without leading zeroes (except for `0`
/// itself).
pub open spec fn dec_str(n: nat) -> Seq<char>
    decreases n,
{
    if n < 10 {
        seq![dec_digit(n)]
    } else {
        dec_str(n / 10).push(dec_digit(n % 10))
    }
}

/// A decimal rendering is never empty, and has at least two characters
/// for `n >= 10`.
pub proof fn lemma_dec_str_len(n: nat)
    ensures
        dec_str(n).len() >= 1,
        n >= 10 ==> dec_str(n).len() >= 2,
    decreases n,
{
    if n >= 10 {
        lemma_dec_str_len(n / 10);
    }
}

/// Distinct numbers render to distinct decimal strings, so counter-minted
/// ids are never reused.
pub proof fn lemma_dec_str_injective(a: nat, b: nat)
    ensures
        dec_str(a) == dec_str(b) ==> a == b,
    decreases a + b,
{
    if dec_str(a) == dec_str(b) {
        lemma_dec_str_len(a);
        lemma_dec_str_len(b);
        if a < 10 && b < 10 {
            assert(dec_str(a)[0] == dec_digit(a));
            assert(dec_str(b)[0] == dec_digit(b));
        } else if a < 10 {
            assert(dec_str(a).len() == 1);
        } else if b < 10 {
            assert(dec_str(b).len() == 1);
        } else {
            assert(dec_str(a).last() == dec_digit(a % 10));
            assert(dec_str(b).last() == dec_digit(b % 10));
            assert(a % 10 == b % 10);
            assert(dec_str(a).drop_last() =~= dec_str(a / 10));
            assert(dec_str(b).drop_last() =~= dec_str(b / 10));
            lemma_dec_str_injective(a / 10, b / 10);
            assert(a == (a / 10) * 10 + a % 10) by (nonlinear_arith);
            assert(b == (b / 10) * 10 + b % 10) by (nonlinear_arith);
        }
    }
}

/// The digit character of `d`.
fn digit_char(d: u8) -> (c: char)
    requires
        d < 10,
    ensures
        c == dec_digit(d as nat),
{
    if d == 0 { '0' }
    else if d == 1 { '1' }
    else if d == 2 { '2' }
    else if d == 3 { '3' }
    else if d == 4 { '4' }
    else if d == 5 { '5' }
    else if d == 6 { '6' }
    else if d == 7 { '7' }
    else if d == 8 { '8' }
    else { '9' }
}

/// Render `n` in decimal.
pub fn u128_to_dec(n: u128) -> (r: String)
    ensures
        r@ == dec_str(n as nat),
    decreases n,
{
    if n < 10 {
        let mut s = String::new();
        push_char(&mut s, digit_char(n as u8));
        proof {
            assert(s@ =~= dec_str(n as nat));
        }
        s
    } else {
        let mut s = u128_to_dec(n / 10);
        push_char(&mut s, digit_char((n % 10) as u8));
        s
    }
}

} // verus!
