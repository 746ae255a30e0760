//! Amounts of money as text.

use vstd::prelude::*;
use vstd::string::StringExecFns;
use crate::numeric::fixed::{magnitude, scale, Fixed};

verus! {

/// The character of a decimal digit.
pub open spec fn digit(d: int) -> char {
    if d == 0 {
        '0'
    } else if d == 1 {
        '1'
    } else if d == 2 {
        '2'
    } else if d == 3 {
        '3'
    } else if d == 4 {
        '4'
    } else if d == 5 {
        '5'
    } else if d == 6 {
        '6'
    } else if d == 7 {
        '7'
    } else if d == 8 {
        '8'
    } else {
        '9'
    }
}

/// The decimal digits of `n`, without leading zeros.
pub open spec fn digits(n: nat) -> Seq<char>
    decreases n,
{
    if n < 10 {
        seq![digit(n as int)]
    } else {
        digits(n / 10).push(digit((n % 10) as int))
    }
}

/// The last `width` decimal digits of `n`, with leading zeros.
pub open spec fn padded(n: nat, width: nat) -> Seq<char>
    decreases width,
{
    if width == 0 {
        Seq::empty()
    } else {
        padded(n / 10, (width - 1) as nat).push(digit((n % 10) as int))
    }
}

/// The decimal digits of `n` with a comma before every group of three.
pub open spec fn grouped(n: nat) -> Seq<char>
    decreases n,
{
    if n < 1000 {
        digits(n)
    } else {
        grouped(n / 1000) + seq![','] + padded(n % 1000, 3)
    }
}

/// The number of cents nearest to an amount given in units of 2^-32; an
/// amount halfway between two cents goes to the one farther from zero.
pub open spec fn cents_of(units: int) -> nat {
    ((magnitude(units) * 100 + scale() / 2) / scale()) as nat
}

/// An amount in dollars as text: a minus sign for a negative amount, the
/// dollar sign, the dollars in groups of three digits, a point, and two
/// digits of cents.
pub open spec fn currency_text(units: int) -> Seq<char> {
    let sign = if units < 0 {
        seq!['-', '$']
    } else {
        seq!['$']
    };
    sign + grouped(cents_of(units) / 100) + seq!['.'] + padded(cents_of(units) % 100, 2)
}

/// Appends one decimal digit.
fn push_digit(text: &mut String, d: u64)
    requires
        d < 10,
    ensures
        final(text)@ == old(text)@.push(digit(d as int)),
{
    proof {
        reveal_strlit("0");
        reveal_strlit("1");
        reveal_strlit("2");
        reveal_strlit("3");
        reveal_strlit("4");
        reveal_strlit("5");
        reveal_strlit("6");
        reveal_strlit("7");
        reveal_strlit("8");
        reveal_strlit("9");
    }
    let glyph: &str = if d == 0 {
        "0"
    } else if d == 1 {
        "1"
    } else if d == 2 {
        "2"
    } else if d == 3 {
        "3"
    } else if d == 4 {
        "4"
    } else if d == 5 {
        "5"
    } else if d == 6 {
        "6"
    } else if d == 7 {
        "7"
    } else if d == 8 {
        "8"
    } else {
        "9"
    };
    assert(glyph@ =~= seq![digit(d as int)]);
    text.append(glyph);
    assert(text@ =~= old(text)@.push(digit(d as int)));
}

/// Appends the decimal digits of `n`.
fn push_digits(text: &mut String, n: u64)
    ensures
        final(text)@ == old(text)@ + digits(n as nat),
    decreases n,
{
    if n >= 10 {
        push_digits(text, n / 10);
    }
    push_digit(text, n % 10);
    assert(text@ =~= old(text)@ + digits(n as nat));
}

/// Appends the last `width` decimal digits of `n`.
fn push_padded(text: &mut String, n: u64, width: u32)
    ensures
        final(text)@ == old(text)@ + padded(n as nat, width as nat),
    decreases width,
{
    if width > 0 {
        push_padded(text, n / 10, width - 1);
        push_digit(text, n % 10);
    }
    assert(text@ =~= old(text)@ + padded(n as nat, width as nat));
}

/// Appends the decimal digits of `n` in groups of three.
fn push_grouped(text: &mut String, n: u64)
    ensures
        final(text)@ == old(text)@ + grouped(n as nat),
    decreases n,
{
    if n < 1000 {
        push_digits(text, n);
    } else {
        push_grouped(text, n / 1000);
        proof {
            reveal_strlit(",");
        }
        text.append(",");
        push_padded(text, n % 1000, 3);
        assert(text@ =~= old(text)@ + grouped(n as nat));
    }
}

/// The number of cents nearest to an amount.
pub fn to_cents(value: Fixed) -> (cents: u64)
    ensures
        cents == cents_of(value@),
{
    let size: u128 = if value.raw >= 0 {
        value.raw as u128
    } else {
        (-(value.raw as i128)) as u128
    };
    ((size * 100 + 0x8000_0000) / 0x1_0000_0000) as u64
}

/// Formats an amount as US dollars, such as `$1,234.57` or `-$0.50`.
pub fn format_currency(value: Fixed) -> (r: String)
    ensures
        r@ == currency_text(value@),
{
    let cents: u64 = to_cents(value);
    proof {
        reveal_strlit("-$");
        reveal_strlit("$");
        reveal_strlit(".");
    }
    let mut text = if value.raw < 0 {
        String::from_str("-$")
    } else {
        String::from_str("$")
    };
    push_grouped(&mut text, cents / 100);
    text.append(".");
    push_padded(&mut text, cents % 100, 2);
    assert(text@ =~= currency_text(value@));
    text
}

} // verus!
