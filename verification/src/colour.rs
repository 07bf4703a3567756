//! The mean savings rate as coloured text for a terminal.

use vstd::prelude::*;
use ansi_term::Colour;
use crate::metrics::{band_of, rate_band, RateBand};
use crate::render::{amount_text, decimal_text, digits_of};

verus! {

/// `ansi_term::Colour`, declared with its variants so that verified code can
/// name a colour and contracts can tell the colours apart.
#[verifier::external_type_specification]
pub struct ExColour(ansi_term::Colour);

/// The code by which a terminal knows a colour of the foreground.
pub open spec fn foreground_code(colour: Colour) -> Seq<char> {
    match colour {
        Colour::Black => "30"@,
        Colour::Red => "31"@,
        Colour::Green => "32"@,
        Colour::Yellow => "33"@,
        Colour::Blue => "34"@,
        Colour::Purple => "35"@,
        Colour::Cyan => "36"@,
        Colour::White => "37"@,
        Colour::Fixed(number) => "38;5;"@ + digits_of(number as nat),
        Colour::RGB(red, green, blue) => "38;2;"@ + digits_of(red as nat) + ";"@ + digits_of(
            green as nat,
        ) + ";"@ + digits_of(blue as nat),
    }
}

/// A text between the escape sequence that switches a terminal to a colour
/// and the one that resets it.
pub open spec fn painted(colour: Colour, text: Seq<char>) -> Seq<char> {
    "\x1b["@ + foreground_code(colour) + "m"@ + text + "\x1b[0m"@
}

/// `ansi_term::Colour::paint`, written out with `to_string`. The contract
/// claims what the crate writes for a plain foreground colour: the escape
/// sequence with the colour's code, the text unchanged, and the reset sequence.
#[verifier::external_body]
fn paint_text(colour: Colour, text: &str) -> (out: String)
    ensures
        out@ == painted(colour, text@),
{
    colour.paint(text).to_string()
}

/// The colour of a band: red for alert, yellow for caution, green for affirmative.
pub open spec fn colour_of(band: RateBand) -> Colour {
    match band {
        RateBand::Alert => Colour::Red,
        RateBand::Caution => Colour::Yellow,
        RateBand::Affirmative => Colour::Green,
    }
}

/// The colour that a band is shown in.
pub fn band_colour(band: RateBand) -> (colour: Colour)
    ensures
        colour == colour_of(band),
{
    match band {
        RateBand::Alert => Colour::Red,
        RateBand::Caution => Colour::Yellow,
        RateBand::Affirmative => Colour::Green,
    }
}

/// A rate in millionths of a percent as it is shown: the number and a percent sign.
pub open spec fn percent_text(value: int) -> Seq<char> {
    decimal_text(value) + "%"@
}

/// A rate, given in millionths of a percent, as text in the colour of its band.
pub fn current_rate_colored(value: i128) -> (out: String)
    ensures
        out@ == painted(colour_of(band_of(value as int)), percent_text(value as int)),
{
    let mut as_percent = amount_text(value);
    as_percent.append("%");
    paint_text(band_colour(rate_band(value)), as_percent.as_str())
}

} // verus!
