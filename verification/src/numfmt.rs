//! Decimal rendering of metric counts, including the compact "K"/"M" display
//! used in status lines: counts of at least one thousand are shown with one
//! rounded decimal and a "K" suffix, counts of at least one million with an
//! "M" suffix, and everything below one thousand in plain decimal.

use vstd::prelude::*;

verus! {

/// The decimal digit character for `d`, for `0 <= d <= 9`.
pub open spec fn digit_char(d: int) -> char {
    if d == 0 {
        '0'
    } else if d == 1 {
        '1'
    } else if d == 2 {
        '2'
    } else if d == 3 {
        '3'
    } else if d == 4 {
        '4'
    } else if d == 5 {
        '5'
    } else if d == 6 {
        '6'
    } else if d == 7 {
        '7'
    } else if d == 8 {
        '8'
    } else {
        '9'
    }
}

/// The decimal representation of a natural number, most significant digit
/// first, with no leading zeros (except for zero itself).
pub open spec fn dec_rep(n: nat) -> Seq<char>
    decreases n,
{
    if n < 10 {
        seq![digit_char(n as int)]
    } else {
        dec_rep(n / 10).push(digit_char((n % 10) as int))
    }
}

/// The decimal representation of an integer: a leading '-' for negatives.
pub open spec fn int_rep(n: int) -> Seq<char> {
    if n < 0 {
        seq!['-'] + dec_rep((-n) as nat)
    } else {
        dec_rep(n as nat)
    }
}

/// A count scaled to tenths of a unit: `t` tenths render as "<t/10>.<t%10>"
/// followed by the unit letter.
pub open spec fn scaled_rep(t: int, unit: char) -> Seq<char>
    recommends
        t >= 0,
{
    dec_rep((t / 10) as nat) + seq!['.', digit_char(t % 10), unit]
}

/// The compact display form of a count: at least one million renders in
/// rounded tenths of a million with an 'M' suffix, at least one thousand in
/// rounded tenths of a thousand with a 'K' suffix, anything else plainly.
/// Rounding is to the nearest tenth, half away from zero.
pub open spec fn spec_format_number(n: int) -> Seq<char> {
    if n >= 1_000_000 {
        scaled_rep((n + 50_000) / 100_000, 'M')
    } else if n >= 1_000 {
        scaled_rep((n + 50) / 100, 'K')
    } else {
        int_rep(n)
    }
}

/// Appends the single digit `d` to `s`.
fn push_digit(s: &mut String, d: u64)
    requires
        d < 10,
    ensures
        final(s)@ == old(s)@.push(digit_char(d as int)),
{
    proof {
        reveal_strlit("0");
        reveal_strlit("1");
        reveal_strlit("2");
        reveal_strlit("3");
        reveal_strlit("4");
        reveal_strlit("5");
        reveal_strlit("6");
        reveal_strlit("7");
        reveal_strlit("8");
        reveal_strlit("9");
    }
    if d == 0 {
        s.append("0");
    } else if d == 1 {
        s.append("1");
    } else if d == 2 {
        s.append("2");
    } else if d == 3 {
        s.append("3");
    } else if d == 4 {
        s.append("4");
    } else if d == 5 {
        s.append("5");
    } else if d == 6 {
        s.append("6");
    } else if d == 7 {
        s.append("7");
    } else if d == 8 {
        s.append("8");
    } else {
        s.append("9");
    }
    assert(s@ =~= old(s)@.push(digit_char(d as int)));
}

/// Appends the decimal representation of `n` to `s`.
fn dec_append(s: &mut String, n: u64)
    ensures
        final(s)@ == old(s)@ + dec_rep(n as nat),
    decreases n,
{
    if n < 10 {
        push_digit(s, n);
    } else {
        dec_append(s, n / 10);
        push_digit(s, n % 10);
    }
    assert(s@ =~= old(s)@ + dec_rep(n as nat));
}

/// The decimal string for an unsigned count.
pub fn u64_dec(n: u64) -> (s: String)
    ensures
        s@ == dec_rep(n as nat),
{
    let mut s = String::new();
    dec_append(&mut s, n);
    assert(s@ =~= dec_rep(n as nat));
    s
}

/// The decimal string for a signed count, with a leading '-' for negatives.
pub fn i64_dec(n: i64) -> (s: String)
    ensures
        s@ == int_rep(n as int),
{
    let mut s = String::new();
    if n >= 0 {
        dec_append(&mut s, n as u64);
    } else {
        proof {
            reveal_strlit("-");
        }
        s.append("-");
        let m: u64 = ((-(n + 1)) as u64) + 1;
        assert(m as nat == (-(n as int)) as nat);
        dec_append(&mut s, m);
    }
    assert(s@ =~= int_rep(n as int));
    s
}

/// Renders `t` tenths of a unit as "<whole>.<tenth><unit>", where the unit
/// letter is 'M' when `mega` holds and 'K' otherwise.
fn scaled_string(t: u64, mega: bool) -> (s: String)
    ensures
        s@ == scaled_rep(t as int, if mega { 'M' } else { 'K' }),
{
    let mut s = u64_dec(t / 10);
    proof {
        reveal_strlit(".");
        reveal_strlit("K");
        reveal_strlit("M");
    }
    s.append(".");
    push_digit(&mut s, t % 10);
    if mega {
        s.append("M");
    } else {
        s.append("K");
    }
    assert(s@ =~= scaled_rep(t as int, if mega { 'M' } else { 'K' }));
    s
}

/// The compact display form of a metric count, exactly `spec_format_number`.
pub fn format_number(n: i64) -> (s: String)
    ensures
        s@ == spec_format_number(n as int),
{
    if n >= 1_000_000 {
        let t: u64 = ((n as u64) + 50_000) / 100_000;
        assert(t as int == (n + 50_000) / 100_000);
        scaled_string(t, true)
    } else if n >= 1_000 {
        let t: u64 = ((n as u64) + 50) / 100;
        assert(t as int == (n + 50) / 100);
        scaled_string(t, false)
    } else {
        i64_dec(n)
    }
}

} // verus!
