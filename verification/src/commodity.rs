//! Monetary quantities and the way they are meant to be displayed.

use vstd::prelude::*;
use crate::error::ReportError;
use crate::fixed::{scale, scaled};

verus! {

/// On which side of the number the commodity symbol stands.
#[derive(Clone, Copy, Debug, PartialEq, Eq, Structural)]
pub enum Side {
    Left,
    Right,
}

impl Side {
    /// The one-letter code of the side.
    pub open spec fn symbol_spec(self) -> Seq<char> {
        match self {
            Side::Left => seq!['L'],
            Side::Right => seq!['R'],
        }
    }

    /// The one-letter code of the side: `"L"` or `"R"`.
    pub fn symbol(&self) -> (code: &'static str)
        ensures
            code@ == self.symbol_spec(),
    {
        proof {
            reveal_strlit("L");
            reveal_strlit("R");
        }
        match self {
            Side::Left => {
                assert("L"@ =~= seq!['L']);
                "L"
            },
            Side::Right => {
                assert("R"@ =~= seq!['R']);
                "R"
            },
        }
    }

    /// The side that a code stands for: `Left` for `"L"`, `Right` for `"R"`,
    /// and a refusal for any other text.
    pub open spec fn from_symbol_spec(code: Seq<char>) -> Result<Side, ReportError> {
        if code.len() == 1 && code[0] == 'L' {
            Ok(Side::Left)
        } else if code.len() == 1 && code[0] == 'R' {
            Ok(Side::Right)
        } else {
            Err(ReportError::Parse)
        }
    }

    /// Reads a side from its code; any text but `"L"` and `"R"` is refused.
    pub fn from_symbol(code: &str) -> (side: Result<Side, ReportError>)
        ensures
            side == Side::from_symbol_spec(code@),
    {
        if code.unicode_len() != 1 {
            return Err(ReportError::Parse);
        }
        let letter: char = code.get_char(0);
        if letter == 'L' {
            Ok(Side::Left)
        } else if letter == 'R' {
            Ok(Side::Right)
        } else {
            Err(ReportError::Parse)
        }
    }

    /// Writing a side and reading it back gives the side.
    pub proof fn symbol_round_trip(self)
        ensures
            Side::from_symbol_spec(self.symbol_spec()) == Ok::<Side, ReportError>(self),
    {
    }
}

/// How a quantity is displayed.
#[derive(Clone, Debug, PartialEq, Eq)]
pub struct Style {
    pub commodity_side: Side,
    pub commodity_spaced: bool,
    pub decimal_point: String,
    pub digit_groups: Option<(String, Vec<usize>)>,
    pub precision: usize,
}

/// A decimal number `mantissa / 10^places` whose amount in millionths fits in an `i64`.
#[derive(Clone, Copy, Debug, PartialEq, Eq)]
pub struct Quantity {
    decimal_mantissa: isize,
    decimal_places: isize,
}

/// Whether the decimal number `mantissa / 10^places` can be held as an amount.
pub open spec fn representable(mantissa: int, places: int) -> bool {
    places >= 0 && i64::MIN <= scaled(mantissa, places) <= i64::MAX
}

impl Quantity {
    #[verifier::type_invariant]
    spec fn well_formed(self) -> bool {
        representable(self.decimal_mantissa as int, self.decimal_places as int)
    }

    /// The digits of the number, as an integer.
    pub closed spec fn mantissa(self) -> int {
        self.decimal_mantissa as int
    }

    /// How many of the digits stand behind the decimal point.
    pub closed spec fn places(self) -> int {
        self.decimal_places as int
    }

    /// The number in millionths, rounded toward zero.
    pub open spec fn amount_spec(self) -> int {
        scaled(self.mantissa(), self.places())
    }

    /// A quantity of `decimal_mantissa / 10^decimal_places`, unless it cannot be held.
    pub fn new(decimal_mantissa: isize, decimal_places: isize) -> (quantity: Option<Quantity>)
        ensures
            quantity is Some <==> representable(decimal_mantissa as int, decimal_places as int),
            quantity is Some ==> quantity->0.mantissa() == decimal_mantissa && quantity->0.places()
                == decimal_places,
    {
        if decimal_places < 0 {
            return None;
        }
        let amount: i128 = scale(decimal_mantissa as i64, decimal_places as u64);
        if amount < i64::MIN as i128 || amount > i64::MAX as i128 {
            None
        } else {
            Some(Quantity { decimal_mantissa, decimal_places })
        }
    }

    /// The digits of the number, as an integer.
    pub fn decimal_mantissa(&self) -> (mantissa: isize)
        ensures
            mantissa == self.mantissa(),
    {
        self.decimal_mantissa
    }

    /// How many of the digits stand behind the decimal point.
    pub fn decimal_places(&self) -> (places: isize)
        ensures
            places == self.places(),
    {
        self.decimal_places
    }

    /// The number in millionths, rounded toward zero.
    pub fn amount(&self) -> (amount: i64)
        ensures
            amount == self.amount_spec(),
    {
        proof {
            use_type_invariant(self);
        }
        scale(self.decimal_mantissa as i64, self.decimal_places as u64) as i64
    }
}

/// The price at which a commodity was bought, with the tag that says what price it is.
#[derive(Debug, PartialEq, Eq)]
pub struct PriceListing {
    pub contents: Box<Commodity>,
    pub tag: String,
}

/// A quantity of one commodity, with its price and display style.
#[derive(Debug, PartialEq, Eq)]
pub struct Commodity {
    pub commodity: String,
    pub price: Option<PriceListing>,
    pub quantity: Quantity,
    pub style: Style,
}

impl Commodity {
    /// The amount of the commodity in millionths.
    pub open spec fn amount_spec(self) -> int {
        self.quantity.amount_spec()
    }

    /// A copy of the commodity and of the prices below it.
    fn duplicate(&self) -> (copy: Commodity)
        ensures
            copy.commodity@ == self.commodity@,
            copy.quantity == self.quantity,
        decreases self,
    {
        let price = match &self.price {
            None => None,
            Some(listing) => Some(
                PriceListing {
                    contents: Box::new(listing.contents.duplicate()),
                    tag: listing.tag.clone(),
                },
            ),
        };
        Commodity {
            commodity: self.commodity.clone(),
            price,
            quantity: self.quantity,
            style: self.style.clone(),
        }
    }
}

impl Clone for Commodity {
    fn clone(&self) -> (copy: Self)
        ensures
            copy.commodity@ == self.commodity@,
            copy.quantity == self.quantity,
    {
        self.duplicate()
    }
}

impl Clone for PriceListing {
    fn clone(&self) -> (copy: Self)
        ensures
            copy.tag@ == self.tag@,
    {
        PriceListing { contents: Box::new(self.contents.duplicate()), tag: self.tag.clone() }
    }
}

} // verus!
