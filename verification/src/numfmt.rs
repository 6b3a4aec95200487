//! Decimal formatting for the vector renderer: plain integers and
//! milli-unit fixed-point values with exactly three decimal places.

use vstd::prelude::*;
use vstd::arithmetic::div_mod::lemma_div_decreases;
use vstd::string::StringExecFns;

verus! {

/// The character for one decimal digit.
pub open spec fn spec_digit(d: nat) -> char
    recommends
        d < 10,
{
    if d == 0 {
        '0'
    } else if d == 1 {
        '1'
    } else if d == 2 {
        '2'
    } else if d == 3 {
        '3'
    } else if d == 4 {
        '4'
    } else if d == 5 {
        '5'
    } else if d == 6 {
        '6'
    } else if d == 7 {
        '7'
    } else if d == 8 {
        '8'
    } else {
        '9'
    }
}

/// The decimal digits of a number, most significant first, with no
/// leading zeros (a single zero for the number zero).
pub open spec fn spec_dec(n: nat) -> Seq<char>
    decreases n,
{
    if n < 10 {
        seq![spec_digit(n)]
    } else {
        spec_dec(n / 10).push(spec_digit(n % 10))
    }
}

/// A milli-unit value as a decimal with exactly three places after the
/// point: the integer part, a dot, and the zero-padded thousandths.
pub open spec fn spec_milli(m: nat) -> Seq<char> {
    spec_dec(m / 1000) + seq!['.'] + spec_dec3((m % 1000) as nat)
}

/// Exactly three digits, zero padded.
pub open spec fn spec_dec3(f: nat) -> Seq<char>
    recommends
        f < 1000,
{
    seq![spec_digit(f / 100), spec_digit((f / 10) % 10), spec_digit(f % 10)]
}

/// The character for one decimal digit.
fn digit_char(d: u64) -> (c: char)
    requires
        d < 10,
    ensures
        c == spec_digit(d as nat),
{
    if d == 0 {
        '0'
    } else if d == 1 {
        '1'
    } else if d == 2 {
        '2'
    } else if d == 3 {
        '3'
    } else if d == 4 {
        '4'
    } else if d == 5 {
        '5'
    } else if d == 6 {
        '6'
    } else if d == 7 {
        '7'
    } else if d == 8 {
        '8'
    } else {
        '9'
    }
}

/// Writes a value's decimal digits, most significant first, with no
/// sign, padding or grouping.
pub fn dec_str(n: u64) -> (r: String)
    ensures
        r@ == spec_dec(n as nat),
    decreases n,
{
    if n < 10 {
        let mut s = String::new();
        push_char(&mut s, digit_char(n));
        assert(s@ =~= spec_dec(n as nat));
        s
    } else {
        proof {
            lemma_div_decreases(n as int, 10);
        }
        let mut s = dec_str(n / 10);
        push_char(&mut s, digit_char(n % 10));
        assert(s@ =~= spec_dec(n as nat));
        s
    }
}

/// Relies on `String::push`: it appends exactly the given character.
#[verifier::external_body]
pub fn push_char(s: &mut String, c: char)
    ensures
        final (s)@ == old(s)@ + seq![c],
{
    s.push(c);
}

/// Formats a milli-unit value with three decimal places, e.g. thousandths
/// of a percent as a percentage.
pub fn milli_str(m: u64) -> (r: String)
    ensures
        r@ == spec_milli(m as nat),
{
    let mut s = dec_str(m / 1000);
    push_char(&mut s, '.');
    let frac = m % 1000;
    proof {
        vstd::arithmetic::div_mod::lemma_div_is_ordered(frac as int, 999, 100);
    }
    let d1 = frac / 100;
    let d2 = (frac / 10) % 10;
    let d3 = frac % 10;
    s.append(dec_str(d1).as_str());
    s.append(dec_str(d2).as_str());
    s.append(dec_str(d3).as_str());
    assert(s@ =~= spec_milli(m as nat));
    s
}

} // verus!
