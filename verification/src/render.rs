//! Amounts in millionths written out as decimal numbers.

use vstd::prelude::*;
use crate::fixed::{lemma_pow10_grows, pow10};

verus! {

/// The character of a decimal digit.
pub open spec fn digit_char(digit: int) -> char {
    if digit == 0 {
        '0'
    } else if digit == 1 {
        '1'
    } else if digit == 2 {
        '2'
    } else if digit == 3 {
        '3'
    } else if digit == 4 {
        '4'
    } else if digit == 5 {
        '5'
    } else if digit == 6 {
        '6'
    } else if digit == 7 {
        '7'
    } else if digit == 8 {
        '8'
    } else {
        '9'
    }
}

/// The decimal digits of a number, without leading zeros.
pub open spec fn digits_of(n: nat) -> Seq<char>
    decreases n,
{
    if n < 10 {
        seq![digit_char(n as int)]
    } else {
        digits_of(n / 10).push(digit_char((n % 10) as int))
    }
}

/// The digits behind the decimal point of `part / 10^width`, up to the last
/// that is not zero.
pub open spec fn fraction_digits(part: nat, width: nat) -> Seq<char>
    decreases width,
{
    if part == 0 || width == 0 {
        Seq::empty()
    } else {
        let unit = pow10((width - 1) as nat);
        seq![digit_char((part / unit) as int)] + fraction_digits(part % unit, (width - 1) as nat)
    }
}

/// An amount in millionths as a decimal number: a minus sign where it is
/// negative, the whole part, and, unless they are all zero, a point and the
/// digits behind it up to the last that is not zero.
pub open spec fn decimal_text(millionths: int) -> Seq<char> {
    let size = if millionths < 0 {
        (-millionths) as nat
    } else {
        millionths as nat
    };
    let sign = if millionths < 0 {
        seq!['-']
    } else {
        Seq::empty()
    };
    let behind = if size % 1_000_000 == 0 {
        Seq::empty()
    } else {
        seq!['.'] + fraction_digits(size % 1_000_000, 6)
    };
    sign + digits_of(size / 1_000_000) + behind
}

/// The text of one decimal digit.
fn digit_text(digit: u8) -> (text: &'static str)
    requires
        digit <= 9,
    ensures
        text@ == seq![digit_char(digit as int)],
{
    proof {
        reveal_strlit("0");
        reveal_strlit("1");
        reveal_strlit("2");
        reveal_strlit("3");
        reveal_strlit("4");
        reveal_strlit("5");
        reveal_strlit("6");
        reveal_strlit("7");
        reveal_strlit("8");
        reveal_strlit("9");
    }
    let text = match digit {
        0 => "0",
        1 => "1",
        2 => "2",
        3 => "3",
        4 => "4",
        5 => "5",
        6 => "6",
        7 => "7",
        8 => "8",
        _ => "9",
    };
    assert(text@ =~= seq![digit_char(digit as int)]);
    text
}

/// Appends the decimal digits of `n` to `out`.
fn push_digits(out: &mut String, n: u128)
    ensures
        final(out)@ == old(out)@ + digits_of(n as nat),
    decreases n,
{
    if n >= 10 {
        push_digits(out, n / 10);
    }
    out.append(digit_text((n % 10) as u8));
    assert(out@ =~= old(out)@ + digits_of(n as nat));
}

/// Appends the digits behind the decimal point of `part / 10^6` to `out`.
fn push_fraction(out: &mut String, part: u32)
    requires
        part < 1_000_000,
    ensures
        final(out)@ == old(out)@ + fraction_digits(part as nat, 6),
{
    let mut rest: u32 = part;
    let mut width: usize = 6;
    let mut unit: u32 = 100_000;
    proof {
        reveal_with_fuel(pow10, 7);
    }
    assert(out@ + fraction_digits(rest as nat, 6) =~= old(out)@ + fraction_digits(part as nat, 6));
    while rest != 0 && width > 0
        invariant
            width <= 6,
            rest < pow10(width as nat),
            width > 0 ==> unit == pow10((width - 1) as nat),
            out@ + fraction_digits(rest as nat, width as nat) == old(out)@ + fraction_digits(
                part as nat,
                6,
            ),
        decreases width,
    {
        let ghost before = out@;
        proof {
            lemma_pow10_grows((width - 1) as nat, 5);
            reveal_with_fuel(pow10, 7);
            assert(pow10(width as nat) == 10 * pow10((width - 1) as nat));
            assert(rest / unit < 10) by (nonlinear_arith)
                requires
                    rest < 10 * unit,
                    unit > 0,
            ;
            assert(rest % unit < unit) by (nonlinear_arith)
                requires
                    unit > 0,
            ;
        }
        out.append(digit_text((rest / unit) as u8));
        proof {
            assert(out@ + fraction_digits((rest % unit) as nat, (width - 1) as nat) =~= before
                + fraction_digits(rest as nat, width as nat));
        }
        rest = rest % unit;
        width = width - 1;
        if width > 0 {
            proof {
                assert(pow10(width as nat) == 10 * pow10((width - 1) as nat));
            }
            unit = unit / 10;
        }
    }
    assert(fraction_digits(rest as nat, width as nat) =~= Seq::<char>::empty());
    assert(out@ + Seq::<char>::empty() =~= out@);
}

/// Writes an amount in millionths as a decimal number.
pub fn amount_text(millionths: i128) -> (text: String)
    ensures
        text@ == decimal_text(millionths as int),
{
    let mut text = String::new();
    let size: u128 = if millionths < 0 {
        text.append("-");
        proof {
            reveal_strlit("-");
        }
        assert(text@ =~= seq!['-']);
        (-(millionths + 1)) as u128 + 1
    } else {
        millionths as u128
    };
    let ghost sign = text@;
    push_digits(&mut text, size / 1_000_000);
    let part: u32 = (size % 1_000_000) as u32;
    if part != 0 {
        text.append(".");
        proof {
            reveal_strlit(".");
        }
        let ghost before = text@;
        assert(before =~= sign + digits_of((size / 1_000_000) as nat) + seq!['.']);
        push_fraction(&mut text, part);
        assert(text@ =~= sign + digits_of((size / 1_000_000) as nat) + (seq!['.']
            + fraction_digits(part as nat, 6)));
    } else {
        assert(text@ =~= sign + digits_of((size / 1_000_000) as nat) + Seq::<char>::empty());
    }
    text
}

} // verus!
