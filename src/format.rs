use vstd::prelude::*;
use crate::text::{decimal, digit_char, push_decimal, push_digit};

verus! {

/// Decimal notation of `n` with a `'` between groups of three digits,
/// counted from the least significant end (`1'234'567`).
pub open spec fn grouped(n: nat) -> Seq<char>
    decreases n,
{
    if n < 1000 {
        decimal(n)
    } else {
        grouped(n / 1000) + seq!['\''] + three_digits(n % 1000)
    }
}

/// Exactly three decimal digits of `m`, which is below a thousand, zeros kept.
pub open spec fn three_digits(m: nat) -> Seq<char> {
    seq![digit_char(m / 100), digit_char((m / 10) % 10), digit_char(m % 10)]
}

/// `v / d` rounded to the nearest integer, halves rounded up.
pub open spec fn nearest(v: nat, d: nat) -> nat
    recommends
        d > 0,
{
    if (v % d) * 2 >= d {
        v / d + 1
    } else {
        v / d
    }
}

/// A count of tenths written with one decimal place (`15` is `1.5`).
pub open spec fn tenths_text(t: nat) -> Seq<char> {
    decimal(t / 10) + seq!['.', digit_char(t % 10)]
}

/// A count of hundredths written with two decimal places (`3333` is `33.33`).
pub open spec fn hundredths_text(h: nat) -> Seq<char> {
    decimal(h / 100) + seq!['.', digit_char((h / 10) % 10), digit_char(h % 10)]
}

/// A size in kibibytes written in thousands with one decimal place, rounded
/// to nearest, halves up. The unit is the largest that the size reaches:
/// Tb from a thousand million (shown in thousand millions), Gb from a million
/// (shown in millions), Mb from a thousand, and Kb below; Mb and Kb both show
/// thousands.
pub open spec fn size_text(kb: nat) -> Seq<char> {
    if kb >= 1_000_000_000 {
        tenths_text(nearest(kb, 100_000_000)) + seq![' ', 'T', 'b']
    } else if kb >= 1_000_000 {
        tenths_text(nearest(kb, 100_000)) + seq![' ', 'G', 'b']
    } else if kb >= 1_000 {
        tenths_text(nearest(kb, 100)) + seq![' ', 'M', 'b']
    } else {
        tenths_text(nearest(kb, 100)) + seq![' ', 'K', 'b']
    }
}

/// Share of `value` in `total` in hundredths of a percent, rounded to
/// nearest, halves up; a zero total counts as a full hundred percent.
pub open spec fn percent_hundredths(value: nat, total: nat) -> nat {
    if total == 0 {
        10000
    } else {
        nearest(value * 10000, total)
    }
}

/// Length of the histogram bar of `value` when the largest value is `max`.
pub open spec fn marks(value: nat, max: nat, max_marks: nat) -> nat {
    if max == 0 {
        max_marks
    } else {
        ((max_marks - 1) as nat * value) / max + 1
    }
}

/// Appends `n` with `'` between groups of three digits.
pub fn push_grouped(out: &mut String, n: u128)
    ensures
        final(out)@ == old(out)@ + grouped(n as nat),
    decreases n,
{
    if n < 1000 {
        push_decimal(out, n);
    } else {
        push_grouped(out, n / 1000);
        proof {
            reveal_strlit("'");
        }
        out.append("'");
        let m = (n % 1000) as u64;
        push_digit(out, m / 100);
        push_digit(out, (m / 10) % 10);
        push_digit(out, m % 10);
        assert(final(out)@ =~= old(out)@ + grouped(n as nat));
    }
}

/// Writes `num` in decimal with a `'` between groups of three digits,
/// counted from the least significant end: `1234567` gives `1'234'567`.
pub fn format_with_grouping(num: u64) -> (r: String)
    ensures
        r@ == grouped(num as nat),
{
    let mut out = String::new();
    push_grouped(&mut out, num as u128);
    assert(out@ =~= grouped(num as u64 as nat));
    out
}

/// `v / d` rounded to the nearest integer, halves rounded up.
fn div_nearest(v: u128, d: u128) -> (r: u128)
    requires
        d > 1,
    ensures
        r == nearest(v as nat, d as nat),
{
    let q = v / d;
    let rem = v % d;
    assert(q <= v) by (nonlinear_arith)
        requires q == v / d, d > 1;
    if rem >= d - rem {
        assert(q < v) by (nonlinear_arith)
            requires q == v / d, rem == v % d, d > 1, rem >= d - rem;
        q + 1
    } else {
        q
    }
}

/// Appends a count of tenths with one decimal place.
fn push_tenths(out: &mut String, t: u128)
    ensures
        final(out)@ == old(out)@ + tenths_text(t as nat),
{
    push_decimal(out, t / 10);
    proof {
        reveal_strlit(".");
    }
    out.append(".");
    push_digit(out, (t % 10) as u64);
    assert(final(out)@ =~= old(out)@ + tenths_text(t as nat));
}

/// Appends a size in kibibytes scaled to Kb, Mb, Gb or Tb.
pub fn push_size(out: &mut String, kb: u128)
    ensures
        final(out)@ == old(out)@ + size_text(kb as nat),
{
    let unit: &str;
    proof {
        reveal_strlit(" Tb");
        reveal_strlit(" Gb");
        reveal_strlit(" Mb");
        reveal_strlit(" Kb");
    }
    if kb >= 1_000_000_000 {
        push_tenths(out, div_nearest(kb, 100_000_000));
        unit = " Tb";
    } else if kb >= 1_000_000 {
        push_tenths(out, div_nearest(kb, 100_000));
        unit = " Gb";
    } else if kb >= 1_000 {
        push_tenths(out, div_nearest(kb, 100));
        unit = " Mb";
    } else {
        push_tenths(out, div_nearest(kb, 100));
        unit = " Kb";
    }
    out.append(unit);
    assert(final(out)@ =~= old(out)@ + size_text(kb as nat));
}

/// Writes a size given in kibibytes with one decimal place and a unit:
/// `500` gives `0.5 Kb`, `1500` gives `1.5 Mb`, `1500000` gives `1.5 Gb`.
pub fn format_size(size_kb: u64) -> (r: String)
    ensures
        r@ == size_text(size_kb as nat),
{
    let mut out = String::new();
    push_size(&mut out, size_kb as u128);
    assert(out@ =~= size_text(size_kb as u64 as nat));
    out
}

/// Appends a count of hundredths with two decimal places.
fn push_hundredths(out: &mut String, h: u128)
    ensures
        final(out)@ == old(out)@ + hundredths_text(h as nat),
{
    push_decimal(out, h / 100);
    proof {
        reveal_strlit(".");
    }
    out.append(".");
    push_digit(out, ((h / 10) % 10) as u64);
    push_digit(out, (h % 10) as u64);
    assert(final(out)@ =~= old(out)@ + hundredths_text(h as nat));
}

/// Appends the share of `value` in `total` as a percentage with two decimals.
pub fn push_percent(out: &mut String, value: u64, total: u128)
    ensures
        final(out)@ == old(out)@ + hundredths_text(percent_hundredths(value as nat, total as nat)),
{
    if total == 0 {
        push_hundredths(out, 10000);
    } else if total == 1 {
        assert(nearest(value as nat * 10000, 1) == value as nat * 10000) by (nonlinear_arith);
        push_hundredths(out, value as u128 * 10000);
    } else {
        push_hundredths(out, div_nearest(value as u128 * 10000, total));
    }
}

/// Writes the share of `value` in `total` as a percentage with two decimals
/// (`100.00`, `33.33`); a zero total gives `100.00`.
pub fn format_percent(value: u64, total: u64) -> (r: String)
    ensures
        r@ == hundredths_text(percent_hundredths(value as nat, total as nat)),
{
    let mut out = String::new();
    push_percent(&mut out, value, total as u128);
    assert(out@ =~= hundredths_text(percent_hundredths(value as nat, total as nat)));
    out
}

/// Length of the histogram bar of `value` when the largest value is `max`:
/// `floor((max_marks - 1) * value / max) + 1`, or `max_marks` when `max` is zero.
/// The largest value gets the full `max_marks`; a zero beside a positive
/// largest value gets a single mark.
pub fn histogram_marks(value: u64, max: u64, max_marks: usize) -> (r: usize)
    requires
        value <= max,
        max_marks >= 1,
    ensures
        r == marks(value as nat, max as nat, max_marks as nat),
        1 <= r <= max_marks,
        value == max ==> r == max_marks,
        max > 0 && value == 0 ==> r == 1,
{
    if max == 0 {
        max_marks
    } else {
        let m = (max_marks - 1) as u128;
        assert(m * value as u128 <= u64::MAX as nat * u64::MAX as nat) by (nonlinear_arith)
            requires m <= u64::MAX, value <= u64::MAX;
        let scaled = m * value as u128;
        let q = scaled / max as u128;
        assert(q <= (max_marks - 1) as nat) by (nonlinear_arith)
            requires
                q == scaled / max as u128,
                scaled == (max_marks - 1) as nat * value as nat,
                value <= max,
                max > 0;
        assert(value == max ==> q == (max_marks - 1) as nat) by (nonlinear_arith)
            requires
                q == scaled / max as u128,
                scaled == (max_marks - 1) as nat * value as nat,
                max > 0;
        assert(value == 0 ==> q == 0) by (nonlinear_arith)
            requires
                q == scaled / max as u128,
                scaled == (max_marks - 1) as nat * value as nat,
                max > 0;
        (q as usize) + 1
    }
}

} // verus!
