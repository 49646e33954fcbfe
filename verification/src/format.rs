//! Decimal text of the amounts in a report.

use vstd::prelude::*;
use vstd::string::StringExecFns;
use crate::reward::TFT_PRECISION;

verus! {

/// Additional scale for percentages.
pub const PERCENTAGE_PRECISION: u32 = 1_000;

/// The character of a decimal digit.
pub open spec fn digit_char(d: int) -> char {
    if d == 0 {
        '0'
    } else if d == 1 {
        '1'
    } else if d == 2 {
        '2'
    } else if d == 3 {
        '3'
    } else if d == 4 {
        '4'
    } else if d == 5 {
        '5'
    } else if d == 6 {
        '6'
    } else if d == 7 {
        '7'
    } else if d == 8 {
        '8'
    } else {
        '9'
    }
}

/// The decimal digits of `n`, without leading zeros.
pub open spec fn decimal(n: nat) -> Seq<char>
    decreases n,
{
    if n < 10 {
        seq![digit_char(n as int)]
    } else {
        decimal(n / 10).push(digit_char((n % 10) as int))
    }
}

/// The last `width` decimal digits of `n`, with leading zeros.
pub open spec fn zero_padded(n: nat, width: nat) -> Seq<char>
    decreases width,
{
    if width == 0 {
        Seq::empty()
    } else {
        zero_padded(n / 10, (width - 1) as nat).push(digit_char((n % 10) as int))
    }
}

/// Text of an amount of `units`, of which `precision` make one whole, with
/// `width` fractional digits.
pub open spec fn fixed_point(units: nat, precision: nat, width: nat) -> Seq<char> {
    decimal(units / precision) + seq!['.'] + zero_padded(units % precision, width)
}

/// Text of an amount of TFT: the whole TFT, a point, and seven fractional digits.
pub open spec fn tft_text(amount: nat) -> Seq<char> {
    fixed_point(amount, TFT_PRECISION as nat, 7)
}

/// Text of a difference of TFT amounts: the text of its magnitude, behind a
/// minus sign where the difference is negative.
pub open spec fn diff_tft_text(amount: int) -> Seq<char> {
    if amount < 0 {
        seq!['-'] + tft_text((-amount) as nat)
    } else {
        tft_text(amount as nat)
    }
}

/// Text of a percentage: the whole percent, a point, three fractional digits
/// and the percent sign.
pub open spec fn percentage_text(p: nat) -> Seq<char> {
    fixed_point(p, PERCENTAGE_PRECISION as nat, 3) + seq!['%']
}

fn digit_text(d: u64) -> (text: &'static str)
    requires
        d < 10,
    ensures
        text@ == seq![digit_char(d as int)],
{
    proof {
        reveal_strlit("0");
        reveal_strlit("1");
        reveal_strlit("2");
        reveal_strlit("3");
        reveal_strlit("4");
        reveal_strlit("5");
        reveal_strlit("6");
        reveal_strlit("7");
        reveal_strlit("8");
        reveal_strlit("9");
    }
    let text = if d == 0 {
        "0"
    } else if d == 1 {
        "1"
    } else if d == 2 {
        "2"
    } else if d == 3 {
        "3"
    } else if d == 4 {
        "4"
    } else if d == 5 {
        "5"
    } else if d == 6 {
        "6"
    } else if d == 7 {
        "7"
    } else if d == 8 {
        "8"
    } else {
        "9"
    };
    assert(text@ =~= seq![digit_char(d as int)]);
    text
}

/// Appends the decimal digits of `n` to `out`.
pub fn push_decimal(out: &mut String, n: u64)
    ensures
        final(out)@ == old(out)@ + decimal(n as nat),
    decreases n,
{
    if n >= 10 {
        push_decimal(out, n / 10);
    }
    out.append(digit_text(n % 10));
    assert(final(out)@ =~= old(out)@ + decimal(n as nat));
}

/// Appends the last `width` decimal digits of `n` to `out`, zeros included.
pub fn push_zero_padded(out: &mut String, n: u64, width: u32)
    ensures
        final(out)@ == old(out)@ + zero_padded(n as nat, width as nat),
    decreases width,
{
    if width > 0 {
        push_zero_padded(out, n / 10, width - 1);
        out.append(digit_text(n % 10));
    }
    assert(final(out)@ =~= old(out)@ + zero_padded(n as nat, width as nat));
}

/// Appends `units / precision`, a point, and `width` digits of the remainder.
fn push_fixed_point(out: &mut String, units: u64, precision: u64, width: u32)
    requires
        precision > 0,
    ensures
        final(out)@ == old(out)@ + fixed_point(units as nat, precision as nat, width as nat),
{
    proof {
        reveal_strlit(".");
    }
    push_decimal(out, units / precision);
    out.append(".");
    push_zero_padded(out, units % precision, width);
    assert(final(out)@ =~= old(out)@ + fixed_point(
        units as nat,
        precision as nat,
        width as nat,
    ));
}

/// Appends the text of an amount of TFT to `out`.
pub fn push_tft(out: &mut String, amount: u64)
    ensures
        final(out)@ == old(out)@ + tft_text(amount as nat),
{
    push_fixed_point(out, amount, TFT_PRECISION, 7);
}

/// Parses an amount of TFT to it's string form.
pub fn format_tft(amount: u64) -> (text: String)
    ensures
        text@ == tft_text(amount as nat),
{
    let mut text = String::new();
    push_tft(&mut text, amount);
    assert(text@ =~= tft_text(amount as nat));
    text
}

/// Appends the text of a difference of TFT amounts to `out`.
pub fn push_diff_tft(out: &mut String, amount: i64)
    ensures
        final(out)@ == old(out)@ + diff_tft_text(amount as int),
{
    if amount < 0 {
        proof {
            reveal_strlit("-");
        }
        let magnitude: u64 = (-(amount + 1)) as u64 + 1;
        out.append("-");
        push_tft(out, magnitude);
        assert(final(out)@ =~= old(out)@ + diff_tft_text(amount as int));
    } else {
        push_tft(out, amount as u64);
    }
}

/// Parses an amount of TFT to it's string form, where the amount can potentially be negative.
pub fn format_diff_tft(amount: i64) -> (text: String)
    ensures
        text@ == diff_tft_text(amount as int),
{
    let mut text = String::new();
    push_diff_tft(&mut text, amount);
    assert(text@ =~= diff_tft_text(amount as int));
    text
}

/// Appends the text of a percentage to `out`.
pub fn push_percentage(out: &mut String, p: u32)
    ensures
        final(out)@ == old(out)@ + percentage_text(p as nat),
{
    proof {
        reveal_strlit("%");
    }
    push_fixed_point(out, p as u64, PERCENTAGE_PRECISION as u64, 3);
    out.append("%");
    assert(final(out)@ =~= old(out)@ + percentage_text(p as nat));
}

/// Format a percentage with 3 digits of precision
pub fn format_percentage(p: u32) -> (text: String)
    ensures
        text@ == percentage_text(p as nat),
{
    let mut text = String::new();
    push_percentage(&mut text, p);
    assert(text@ =~= percentage_text(p as nat));
    text
}

} // verus!
