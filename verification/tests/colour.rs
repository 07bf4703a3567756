use ansi_term::Colour;
use savings_rate::colour::{band_colour, current_rate_colored};
use savings_rate::metrics::RateBand;
use savings_rate::render::amount_text;

#[test]
fn whole_amounts_have_no_point() {
    assert_eq!(amount_text(0), "0");
    assert_eq!(amount_text(25_000_000), "25");
    assert_eq!(amount_text(1_234_000_000), "1234");
    assert_eq!(amount_text(-7_000_000), "-7");
}

#[test]
fn zeros_at_the_end_are_left_out() {
    assert_eq!(amount_text(25_500_000), "25.5");
    assert_eq!(amount_text(1_234_560_000), "1234.56");
    assert_eq!(amount_text(33_333_333), "33.333333");
    assert_eq!(amount_text(1), "0.000001");
    assert_eq!(amount_text(100), "0.0001");
    assert_eq!(amount_text(1_000_010), "1.00001");
    assert_eq!(amount_text(-1_250_000), "-1.25");
    assert_eq!(amount_text(-1), "-0.000001");
}

#[test]
fn largest_amounts_are_written_out() {
    assert_eq!(amount_text(i128::MAX), "170141183460469231731687303715884.105727");
    assert_eq!(amount_text(i128::MIN), "-170141183460469231731687303715884.105728");
}

#[test]
fn colours_of_the_bands() {
    assert_eq!(band_colour(RateBand::Alert), Colour::Red);
    assert_eq!(band_colour(RateBand::Caution), Colour::Yellow);
    assert_eq!(band_colour(RateBand::Affirmative), Colour::Green);
}

#[test]
fn rate_in_the_colour_of_its_band() {
    assert_eq!(current_rate_colored(25_000_000), "\u{1b}[33m25%\u{1b}[0m");
    assert_eq!(current_rate_colored(50_000_000), "\u{1b}[33m50%\u{1b}[0m");
    assert_eq!(current_rate_colored(62_500_000), "\u{1b}[32m62.5%\u{1b}[0m");
    assert_eq!(current_rate_colored(0), "\u{1b}[31m0%\u{1b}[0m");
    assert_eq!(current_rate_colored(-12_250_000), "\u{1b}[31m-12.25%\u{1b}[0m");
}
