//! Rendering of the numeric facts: decimal numbers, rounded percentages and
//! gibibyte quantities with two decimal digits.
//!
//! Every rounding in this module rounds to the nearest whole unit, with
//! halves rounded up.

use vstd::prelude::*;
use vstd::arithmetic::div_mod::{lemma_div_pos_is_pos, lemma_multiply_divide_le};

verus! {

/// The character for the decimal digit `d`.
pub open spec fn digit_char(d: nat) -> char {
    if d == 0 {
        '0'
    } else if d == 1 {
        '1'
    } else if d == 2 {
        '2'
    } else if d == 3 {
        '3'
    } else if d == 4 {
        '4'
    } else if d == 5 {
        '5'
    } else if d == 6 {
        '6'
    } else if d == 7 {
        '7'
    } else if d == 8 {
        '8'
    } else {
        '9'
    }
}

/// The decimal representation of `n`, most significant digit first, without
/// leading zeroes (the representation of zero is a single `0`).
pub open spec fn dec_rep(n: nat) -> Seq<char>
    decreases n,
{
    if n < 10 {
        seq![digit_char(n)]
    } else {
        dec_rep(n / 10).push(digit_char(n % 10))
    }
}

/// The decimal representation of `n` padded with a leading zero to at least
/// two digits, as the fractional part of a fixed-point quantity is written.
pub open spec fn two_digits(n: nat) -> Seq<char> {
    if n < 10 {
        seq!['0'] + dec_rep(n)
    } else {
        dec_rep(n)
    }
}

/// The percentage of `total` that `used` takes up, rounded to the nearest
/// whole number with halves rounded up; meaningful for `0 <= used <= total`
/// and `total > 0`.
pub open spec fn pct_rounded(used: int, total: int) -> int {
    (used * 200 + total) / (2 * total)
}

/// Hundredths of a gibibyte in `bytes` bytes, rounded to the nearest
/// hundredth with halves rounded up.
pub open spec fn gib_hundredths(bytes: int) -> int {
    (bytes * 100 + 0x2000_0000) / 0x4000_0000
}

/// A rounded percentage always lies between 0 and 100.
pub proof fn lemma_pct_rounded_bounds(used: int, total: int)
    requires
        0 <= used <= total,
        0 < total,
    ensures
        0 <= pct_rounded(used, total) <= 100,
{
    let num = used * 200 + total;
    let den = 2 * total;
    assert(0 < num && 0 < den && num <= den * 100 + total) by (nonlinear_arith)
        requires
            0 <= used <= total && 0 < total && num == used * 200 + total && den == 2 * total,
    ;
    lemma_div_pos_is_pos(num, den);
    assert(num <= den * 101) by (nonlinear_arith)
        requires
            num <= den * 100 + total && den == 2 * total && 0 < total,
    ;
    lemma_multiply_divide_le(num, den, 101);
    assert(num / den <= 100) by {
        if num / den == 101 {
            assert(den * 101 == num) by {
                vstd::arithmetic::div_mod::lemma_fundamental_div_mod(num, den);
                assert(num % den >= 0);
                assert(num == den * (num / den) + num % den);
                assert(num <= den * 101);
            }
            assert(false) by (nonlinear_arith)
                requires
                    den * 101 == num && num <= den * 100 + total && den == 2 * total && 0 < total,
            ;
        }
    }
}

/// The string of one decimal digit.
fn digit_str(d: u64) -> (r: &'static str)
    requires
        d < 10,
    ensures
        r@ == seq![digit_char(d as nat)],
{
    proof {
        reveal_strlit("0");
        reveal_strlit("1");
        reveal_strlit("2");
        reveal_strlit("3");
        reveal_strlit("4");
        reveal_strlit("5");
        reveal_strlit("6");
        reveal_strlit("7");
        reveal_strlit("8");
        reveal_strlit("9");
    }
    let r: &'static str = if d == 0 {
        "0"
    } else if d == 1 {
        "1"
    } else if d == 2 {
        "2"
    } else if d == 3 {
        "3"
    } else if d == 4 {
        "4"
    } else if d == 5 {
        "5"
    } else if d == 6 {
        "6"
    } else if d == 7 {
        "7"
    } else if d == 8 {
        "8"
    } else {
        "9"
    };
    proof {
        assert(r@ =~= seq![digit_char(d as nat)]);
    }
    r
}

/// Writes `n` in decimal.
pub fn u64_to_string(n: u64) -> (r: String)
    ensures
        r@ == dec_rep(n as nat),
    decreases n,
{
    if n < 10 {
        digit_str(n).to_owned()
    } else {
        let mut s = u64_to_string(n / 10);
        s.append(digit_str(n % 10));
        proof {
            assert(s@ =~= dec_rep(n as nat));
        }
        s
    }
}

/// Writes `n` in decimal, padded with a leading zero to two digits.
pub fn two_digit_string(n: u64) -> (r: String)
    requires
        n < 100,
    ensures
        r@ == two_digits(n as nat),
{
    if n < 10 {
        let mut s = "0".to_owned();
        proof {
            reveal_strlit("0");
            assert("0"@ =~= seq!['0']);
        }
        s.append(digit_str(n));
        s
    } else {
        u64_to_string(n)
    }
}

/// The percentage of `total` that `used` takes up, rounded to the nearest
/// whole number with halves rounded up.
pub fn percentage(used: u64, total: u64) -> (p: u8)
    requires
        used <= total,
        0 < total,
    ensures
        p == pct_rounded(used as int, total as int),
{
    proof {
        lemma_pct_rounded_bounds(used as int, total as int);
    }
    let u = used as u128;
    let t = total as u128;
    let p = (u * 200 + t) / (2 * t);
    p as u8
}

/// Hundredths of a gibibyte in `bytes` bytes, rounded to the nearest
/// hundredth with halves rounded up.
pub fn gib_hundredths_of_bytes(bytes: u64) -> (h: u64)
    ensures
        h == gib_hundredths(bytes as int),
{
    let num = (bytes as u128) * 100 + 0x2000_0000;
    let h = num / 0x4000_0000;
    proof {
        assert(num as int <= 0x4000_0000 * 0x1000_0000_0000_0000_0000) by (nonlinear_arith)
            requires
                num == (bytes as int) * 100 + 0x2000_0000 && bytes <= u64::MAX,
        ;
        lemma_multiply_divide_le(num as int, 0x4000_0000, 0x1000_0000_0000_0000_0000);
        lemma_div_pos_is_pos(num as int, 0x4000_0000);
    }
    h as u64
}

/// Hundredths of a gibibyte in `kb` kilobytes (of 1024 bytes each), rounded
/// to the nearest hundredth with halves rounded up.
pub fn gib_hundredths_of_kb(kb: u64) -> (h: u64)
    ensures
        h == gib_hundredths(kb as int * 1024),
{
    let num = (kb as u128) * 102400 + 0x2000_0000;
    let h = num / 0x4000_0000;
    proof {
        assert(num == (kb as int * 1024) * 100 + 0x2000_0000) by (nonlinear_arith)
            requires
                num == (kb as int) * 102400 + 0x2000_0000,
        ;
        assert(num as int <= 0x4000_0000 * 0x1000_0000_0000_0000_0000) by (nonlinear_arith)
            requires
                num == (kb as int) * 102400 + 0x2000_0000 && kb <= u64::MAX,
        ;
        lemma_multiply_divide_le(num as int, 0x4000_0000, 0x1000_0000_0000_0000_0000);
        lemma_div_pos_is_pos(num as int, 0x4000_0000);
    }
    h as u64
}

/// A gibibyte quantity of `h` hundredths, written with two decimal digits:
/// the whole part in decimal, a point, and the fraction padded to two digits.
pub open spec fn gib_text(h: nat) -> Seq<char> {
    dec_rep(h / 100) + "."@ + two_digits(h % 100)
}

/// The rendering of a used/total pair in hundredths of a gibibyte together
/// with a rounded percentage: `U.UU GiB / T.TT GiB (P%)`.
pub open spec fn usage_text(used_h: nat, total_h: nat, pct: nat) -> Seq<char> {
    gib_text(used_h) + " GiB / "@ + gib_text(total_h) + " GiB ("@ + dec_rep(pct) + "%)"@
}

/// A used/total measurement in hundredths of a gibibyte, with the share of
/// the total that is used as a whole percentage.
pub struct UsageStats {
    pub used_hundredths: u64,
    pub total_hundredths: u64,
    pub pct: u8,
}

impl UsageStats {
    /// Writes the measurement as `U.UU GiB / T.TT GiB (P%)`.
    pub fn render(&self) -> (r: String)
        ensures
            r@ == usage_text(
                self.used_hundredths as nat,
                self.total_hundredths as nat,
                self.pct as nat,
            ),
    {
        let mut s = gib_string(self.used_hundredths);
        s.append(" GiB / ");
        let t = gib_string(self.total_hundredths);
        s.append(t.as_str());
        s.append(" GiB (");
        let p = u64_to_string(self.pct as u64);
        s.append(p.as_str());
        s.append("%)");
        s
    }
}

/// Writes `h` hundredths of a gibibyte as a number with two decimal digits.
pub fn gib_string(h: u64) -> (r: String)
    ensures
        r@ == gib_text(h as nat),
{
    let mut s = u64_to_string(h / 100);
    s.append(".");
    let frac = two_digit_string(h % 100);
    s.append(frac.as_str());
    s
}

} // verus!
