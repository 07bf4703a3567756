//! Amounts written as text, with a currency suffix and separators of thousands.

use vstd::prelude::*;
use crate::error::ReportError;
use crate::fixed::{lemma_pow10_grows, pow10, SCALE};

verus! {

/// The characters of a text, in order.
pub fn chars_of(text: &str) -> (chars: Vec<char>)
    ensures
        chars@ == text@,
{
    let mut chars: Vec<char> = Vec::new();
    for c in it: text.chars()
        invariant
            chars@ == it.seq().take(it.index()),
            it.seq() == text@,
    {
        chars.push(c);
    }
    chars
}

/// Whether `pattern` stands in `text` at position `at`.
pub open spec fn occurs_at(text: Seq<char>, at: int, pattern: Seq<char>) -> bool {
    0 <= at && at + pattern.len() <= text.len() && text.subrange(at, at + pattern.len()) == pattern
}

/// `text` without the occurrences of `pattern`, found from left to right, each
/// search starting behind the occurrence before it.
pub open spec fn without(text: Seq<char>, pattern: Seq<char>) -> Seq<char>
    decreases text.len(),
{
    if text.len() == 0 || pattern.len() == 0 {
        text
    } else if occurs_at(text, 0, pattern) {
        without(text.skip(pattern.len() as int), pattern)
    } else {
        seq![text[0]] + without(text.skip(1), pattern)
    }
}

/// Tells whether `pattern` stands in `text` at position `at`.
pub fn found_at(text: &Vec<char>, at: usize, pattern: &Vec<char>) -> (found: bool)
    ensures
        found == occurs_at(text@, at as int, pattern@),
{
    if at > text.len() || pattern.len() > text.len() - at {
        return false;
    }
    let mut k: usize = 0;
    while k < pattern.len()
        invariant
            k <= pattern.len(),
            at + pattern.len() <= text.len(),
            forall|j: int| 0 <= j < k ==> text[at + j] == pattern[j],
        decreases pattern.len() - k,
    {
        if text[at + k] != pattern[k] {
            assert(text@.subrange(at as int, at + pattern.len())[k as int] != pattern@[k as int]);
            return false;
        }
        k = k + 1;
    }
    assert(text@.subrange(at as int, at + pattern.len()) =~= pattern@);
    true
}

/// Removes the occurrences of `pattern` from `text`.
pub fn remove_all(text: &Vec<char>, pattern: &Vec<char>) -> (rest: Vec<char>)
    ensures
        rest@ == without(text@, pattern@),
{
    let mut rest: Vec<char> = Vec::new();
    let mut i: usize = 0;
    assert(text@.skip(0) =~= text@);
    while i < text.len()
        invariant
            i <= text.len(),
            rest@ + without(text@.skip(i as int), pattern@) == without(text@, pattern@),
        decreases text.len() - i,
    {
        let ghost tail = text@.skip(i as int);
        if pattern.len() > 0 && found_at(text, i, pattern) {
            assert(tail.subrange(0, pattern.len() as int) =~= text@.subrange(
                i as int,
                i + pattern.len(),
            ));
            assert(tail.skip(pattern.len() as int) =~= text@.skip(i + pattern.len()));
            i = i + pattern.len();
        } else {
            if pattern.len() > 0 {
                assert(!occurs_at(tail, 0, pattern@)) by {
                    if pattern.len() <= tail.len() {
                        assert(tail.subrange(0, pattern.len() as int) =~= text@.subrange(
                            i as int,
                            i + pattern.len(),
                        ));
                    }
                }
                assert(tail.skip(1) =~= text@.skip(i + 1));
                assert(rest@.push(text[i as int]) + without(tail.skip(1), pattern@) =~= rest@ + (
                seq![tail[0]] + without(tail.skip(1), pattern@)));
            } else {
                assert(rest@ + tail =~= rest@.push(text[i as int]) + text@.skip(i + 1));
            }
            rest.push(text[i]);
            i = i + 1;
        }
    }
    assert(text@.skip(i as int) =~= Seq::<char>::empty());
    assert(rest@ + Seq::<char>::empty() =~= rest@);
    rest
}

/// Whether a character is a decimal digit.
pub open spec fn is_digit(c: char) -> bool {
    '0' <= c <= '9'
}

/// The number that a decimal digit stands for.
pub open spec fn digit_value(c: char) -> int {
    c as int - '0' as int
}

/// Whether a text holds decimal digits only.
pub open spec fn all_digits(text: Seq<char>) -> bool {
    forall|i: int| 0 <= i < text.len() ==> is_digit(#[trigger] text[i])
}

/// The number that a text of decimal digits stands for.
pub open spec fn number(digits: Seq<char>) -> int
    decreases digits.len(),
{
    if digits.len() == 0 {
        0
    } else {
        number(digits.drop_last()) * 10 + digit_value(digits.last())
    }
}

/// The length of the run of digits that a text begins with.
pub open spec fn digit_run(text: Seq<char>) -> nat
    decreases text.len(),
{
    if text.len() == 0 || !is_digit(text[0]) {
        0
    } else {
        1 + digit_run(text.skip(1))
    }
}

/// The number that a decimal digit stands for; `None` for any other character.
pub fn digit_of(c: char) -> (digit: Option<u8>)
    ensures
        digit is Some <==> is_digit(c),
        digit is Some ==> digit->0 == digit_value(c) && digit->0 <= 9,
{
    if '0' <= c && c <= '9' {
        Some((c as u32 - '0' as u32) as u8)
    } else {
        None
    }
}

/// Whether a text begins with a sign.
pub open spec fn has_sign(text: Seq<char>) -> bool {
    text.len() > 0 && (text[0] == '-' || text[0] == '+')
}

/// A text without the sign that it begins with.
pub open spec fn unsigned(text: Seq<char>) -> Seq<char> {
    if has_sign(text) {
        text.skip(1)
    } else {
        text
    }
}

/// The digits before the decimal point of an unsigned text.
pub open spec fn whole_part(body: Seq<char>) -> Seq<char> {
    body.take(digit_run(body) as int)
}

/// What follows the character behind the digits that an unsigned text begins with.
pub open spec fn fraction_part(body: Seq<char>) -> Seq<char> {
    if digit_run(body) < body.len() {
        body.skip(digit_run(body) as int + 1)
    } else {
        Seq::empty()
    }
}

/// The millionths that the digits behind a decimal point stand for; digits
/// behind the sixth are left out.
pub open spec fn fraction_millionths(fraction: Seq<char>) -> int {
    if fraction.len() >= 6 {
        number(fraction.take(6))
    } else {
        number(fraction) * pow10((6 - fraction.len()) as nat)
    }
}

/// Whether a text is a decimal number: an optional sign, digits, and
/// optionally a point and more digits, with a digit on at least one side of it.
pub open spec fn is_decimal(text: Seq<char>) -> bool {
    let body = unsigned(text);
    &&& digit_run(body) == body.len() || body[digit_run(body) as int] == '.'
    &&& all_digits(fraction_part(body))
    &&& whole_part(body).len() + fraction_part(body).len() > 0
}

/// The millionths that a decimal number stands for, rounded toward zero.
pub open spec fn decimal_value(text: Seq<char>) -> int {
    let body = unsigned(text);
    let size = number(whole_part(body)) * SCALE + fraction_millionths(fraction_part(body));
    if text.len() > 0 && text[0] == '-' {
        -size
    } else {
        size
    }
}

/// The amount in millionths that a decimal number stands for, where it is one
/// and the amount can be held.
pub open spec fn decimal_amount(text: Seq<char>) -> Option<i64> {
    if is_decimal(text) && i64::MIN <= decimal_value(text) <= i64::MAX {
        Some(decimal_value(text) as i64)
    } else {
        None
    }
}

/// A text that begins with `count` digits and goes on with another character,
/// or ends, begins with a run of exactly `count` digits.
pub proof fn lemma_digit_run(text: Seq<char>, count: int)
    requires
        0 <= count <= text.len(),
        all_digits(text.take(count)),
        count == text.len() || !is_digit(text[count]),
    ensures
        digit_run(text) == count,
    decreases count,
{
    if count > 0 {
        assert(text.take(count)[0] == text[0]);
        let rest = text.skip(1);
        assert forall|i: int| 0 <= i < count - 1 implies is_digit(
            #[trigger] rest.take(count - 1)[i],
        ) by {
            assert(rest.take(count - 1)[i] == text.take(count)[i + 1]);
        }
        lemma_digit_run(rest, count - 1);
    }
}

/// Reading one more digit multiplies by ten and adds the digit.
pub proof fn lemma_number_step(digits: Seq<char>, count: int)
    requires
        0 <= count < digits.len(),
    ensures
        number(digits.take(count + 1)) == number(digits.take(count)) * 10 + digit_value(
            digits[count],
        ),
{
    assert(digits.take(count + 1).drop_last() =~= digits.take(count));
}

/// The largest whole part of an amount that can be held.
pub const MAX_WHOLE: i128 = 9_223_372_036_854;

/// Reads a decimal number as an amount in millionths.
pub fn parse_decimal(text: &Vec<char>) -> (amount: Option<i64>)
    ensures
        amount == decimal_amount(text@),
{
    let len = text.len();
    let mut start: usize = 0;
    let mut negative = false;
    if len > 0 && (text[0] == '-' || text[0] == '+') {
        negative = text[0] == '-';
        start = 1;
    }
    let ghost body = unsigned(text@);
    assert(body =~= text@.skip(start as int));
    // The digits before the point.
    let mut whole: i128 = 0;
    let mut too_large = false;
    let mut i: usize = start;
    assert(body.take(0).len() == 0);
    loop
        invariant_except_break
            start <= i <= len,
            len == text.len(),
            body == text@.skip(start as int),
            all_digits(body.take(i - start)),
            0 <= whole <= MAX_WHOLE,
            !too_large ==> whole == number(body.take(i - start)),
            too_large ==> number(body.take(i - start)) > MAX_WHOLE,
        ensures
            start <= i <= len,
            digit_run(body) == i - start,
            0 <= whole <= MAX_WHOLE,
            !too_large ==> whole == number(body.take(i - start)),
            too_large ==> number(body.take(i - start)) > MAX_WHOLE,
        decreases len - i,
    {
        if i >= len {
            proof {
                lemma_digit_run(body, i - start);
            }
            break;
        }
        let digit = match digit_of(text[i]) {
            Some(digit) => digit,
            None => {
                proof {
                    lemma_digit_run(body, i - start);
                }
                break;
            },
        };
        proof {
            lemma_number_step(body, i - start);
            assert forall|j: int| 0 <= j < i - start + 1 implies is_digit(
                #[trigger] body.take(i - start + 1)[j],
            ) by {
                if j < i - start {
                    assert(body.take(i - start + 1)[j] == body.take(i - start)[j]);
                }
            }
        }
        if !too_large {
            whole = whole * 10 + digit as i128;
            if whole > MAX_WHOLE {
                too_large = true;
                whole = 0;
            }
        }
        i = i + 1;
    }
    let run: usize = i - start;
    let ghost fraction = fraction_part(body);
    // The point and the digits behind it.
    let mut millionths: i128 = 0;
    let mut behind: usize = 0;
    if i < len {
        if text[i] != '.' {
            return None;
        }
        i = i + 1;
        let first: usize = i;
        assert(fraction =~= text@.skip(first as int));
        assert(fraction.take(0).len() == 0);
        assert(pow10(0) == 1);
        while i < len
            invariant
                first <= i <= len,
                len == text.len(),
                fraction == text@.skip(first as int),
                fraction == fraction_part(unsigned(text@)),
                digit_run(unsigned(text@)) < unsigned(text@).len(),
                unsigned(text@)[digit_run(unsigned(text@)) as int] == '.',
                fraction.len() == len - first,
                behind == i - first,
                all_digits(fraction.take(behind as int)),
                0 <= millionths < pow10(if behind < 6 { behind as nat } else { 6 }),
                millionths == number(fraction.take(if behind < 6 { behind as int } else { 6 })),
            decreases len - i,
        {
            let digit = match digit_of(text[i]) {
                Some(digit) => digit,
                None => {
                    assert(!is_digit(fraction[behind as int]));
                    return None;
                },
            };
            proof {
                assert forall|j: int| 0 <= j < behind + 1 implies is_digit(
                    #[trigger] fraction.take(behind + 1)[j],
                ) by {
                    if j < behind {
                        assert(fraction.take(behind + 1)[j] == fraction.take(behind as int)[j]);
                    }
                }
                if behind < 6 {
                    lemma_number_step(fraction, behind as int);
                    lemma_pow10_grows(behind as nat, 5);
                    reveal_with_fuel(pow10, 7);
                }
            }
            if behind < 6 {
                millionths = millionths * 10 + digit as i128;
            }
            behind = behind + 1;
            i = i + 1;
        }
        assert(fraction.take(behind as int) =~= fraction);
    }
    assert(all_digits(fraction));
    if run + behind == 0 {
        return None;
    }
    assert(is_decimal(text@));
    // Digits that are missing behind the point count as zeros.
    let mut filled: usize = behind;
    proof {
        assert(behind == fraction.len());
        assert(pow10(0) == 1);
        if behind < 6 {
            assert(fraction.take(behind as int) =~= fraction);
            assert(millionths == number(fraction) * pow10(0));
        }
    }
    while filled < 6
        invariant
            behind <= filled,
            behind == fraction.len(),
            0 <= millionths,
            behind < 6 ==> filled <= 6 && millionths == number(fraction) * pow10(
                (filled - behind) as nat,
            ) && millionths < pow10(filled as nat),
            behind >= 6 ==> millionths == fraction_millionths(fraction) && millionths < pow10(6),
        decreases 6 - filled,
    {
        proof {
            lemma_pow10_grows(filled as nat, 5);
            reveal_with_fuel(pow10, 7);
            assert(pow10((filled + 1 - behind) as nat) == 10 * pow10((filled - behind) as nat));
            assert(pow10((filled + 1) as nat) == 10 * pow10(filled as nat));
            assert(number(fraction) * pow10((filled - behind) as nat) * 10 == number(fraction)
                * pow10((filled + 1 - behind) as nat)) by (nonlinear_arith)
                requires
                    pow10((filled + 1 - behind) as nat) == 10 * pow10((filled - behind) as nat),
            ;
        }
        millionths = millionths * 10;
        filled = filled + 1;
    }
    assert(millionths == fraction_millionths(fraction));
    assert(millionths < 1_000_000) by {
        reveal_with_fuel(pow10, 7);
    }
    if too_large {
        assert(number(whole_part(body)) * SCALE > i64::MAX) by (nonlinear_arith)
            requires
                number(whole_part(body)) > MAX_WHOLE,
        ;
        return None;
    }
    let size: i128 = whole * SCALE + millionths;
    let value: i128 = if negative {
        -size
    } else {
        size
    };
    assert(value == decimal_value(text@));
    if value < i64::MIN as i128 || value > i64::MAX as i128 {
        None
    } else {
        Some(value as i64)
    }
}

/// A text without its currency suffixes and its separators of thousands.
pub open spec fn normalized(text: Seq<char>) -> Seq<char> {
    without(without(text, " USD"@), ","@)
}

/// The amount in millionths that a text stands for once it is normalized,
/// where that is a decimal number whose amount can be held.
pub open spec fn amount_of(text: Seq<char>) -> Option<i64> {
    decimal_amount(normalized(text))
}

/// What reading a text as an amount gives: the amount, or the refusal of the
/// text where it stands for none.
pub open spec fn reading_of(text: Seq<char>) -> Result<i64, ReportError> {
    match amount_of(text) {
        Some(amount) => Ok(amount),
        None => Err(ReportError::Parse),
    }
}

/// Reads the characters of an amount such as `1,234.56 USD`.
pub fn read_amount(text: &Vec<char>) -> (amount: Result<i64, ReportError>)
    ensures
        amount == reading_of(text@),
{
    let suffix = chars_of(" USD");
    let separator = chars_of(",");
    let bare = remove_all(text, &suffix);
    let digits = remove_all(&bare, &separator);
    match parse_decimal(&digits) {
        Some(amount) => Ok(amount),
        None => Err(ReportError::Parse),
    }
}

/// Reads an amount such as `1,234.56 USD`: the currency suffix and the
/// separators of thousands are taken out, and what is left is read as a
/// decimal number. The amount is given in millionths.
pub fn string_to_amount(text: &str) -> (amount: Result<i64, ReportError>)
    ensures
        amount == reading_of(text@),
{
    let chars = chars_of(text);
    read_amount(&chars)
}

/// What follows the last line break of a text; the text itself where it has none.
pub open spec fn last_line(text: Seq<char>) -> Seq<char>
    decreases text.len(),
{
    if text.len() == 0 || text.last() == '\n' {
        Seq::empty()
    } else {
        last_line(text.drop_last()).push(text.last())
    }
}

/// The last line of the output of a query for the total of the liabilities,
/// read as an amount in millionths.
pub fn liabilities_from_output(output: &str) -> (amount: Result<i64, ReportError>)
    ensures
        amount == reading_of(last_line(output@)),
{
    let chars = chars_of(output);
    let mut line: Vec<char> = Vec::new();
    let mut i: usize = 0;
    assert(chars@.take(0).len() == 0);
    while i < chars.len()
        invariant
            i <= chars.len(),
            line@ == last_line(chars@.take(i as int)),
        decreases chars.len() - i,
    {
        assert(chars@.take(i + 1).drop_last() =~= chars@.take(i as int));
        if chars[i] == '\n' {
            line = Vec::new();
        } else {
            line.push(chars[i]);
        }
        i = i + 1;
    }
    assert(chars@.take(i as int) =~= chars@);
    read_amount(&line)
}

} // verus!
