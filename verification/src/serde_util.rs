//! How the provider writes numbers, truth values and dates as text.

use chrono::Datelike;
use vstd::prelude::*;
use vstd::string::is_ascii_spec_bytes;
use crate::faboul::Datum;

verus! {

/// Why a text is not the value it stands for.
#[derive(Clone, Copy, Debug, PartialEq, Eq, Structural)]
pub enum FieldError {
    /// The text is not a number that fits.
    InvalidNumber,
    /// The text is neither "Ja" nor "Nej".
    UnknownVariant,
    /// The text does not start with a date.
    InvalidDate,
}

/// The character is one of the ten digits.
pub open spec fn is_digit(c: char) -> bool {
    '0' <= c <= '9'
}

/// Every character is a digit.
pub open spec fn all_digits(digits: Seq<char>) -> bool {
    forall|i: int| 0 <= i < digits.len() ==> is_digit(#[trigger] digits[i])
}

/// The number that a run of digits writes in base ten.
pub open spec fn digits_value(digits: Seq<char>) -> nat
    decreases digits.len(),
{
    if digits.len() == 0 {
        0
    } else {
        (digits_value(digits.drop_last()) * 10 + (digits.last() as int - '0' as int)) as nat
    }
}

/// The text without the plus sign that may stand before a number.
pub open spec fn number_digits(text: Seq<char>) -> Seq<char> {
    if text.len() > 0 && text[0] == '+' {
        text.skip(1)
    } else {
        text
    }
}

/// The number that a text writes: one digit or more, after at most one plus
/// sign and with nothing else around them.
pub open spec fn number_of(text: Seq<char>) -> Option<nat> {
    let digits = number_digits(text);
    if digits.len() > 0 && all_digits(digits) {
        Some(digits_value(digits))
    } else {
        None
    }
}

/// The digits read so far never write more than all of them do.
proof fn lemma_digits_value_grows(digits: Seq<char>, read: int)
    requires
        all_digits(digits),
        0 <= read <= digits.len(),
    ensures
        digits_value(digits.take(read)) <= digits_value(digits),
    decreases digits.len() - read,
{
    if read < digits.len() {
        let longer = digits.take(read + 1);
        assert(longer.drop_last() =~= digits.take(read));
        assert(is_digit(digits[read]));
        assert(longer.last() == digits[read]);
        lemma_digits_value_grows(digits, read + 1);
    } else {
        assert(digits.take(read) =~= digits);
    }
}

/// Reads a number that is written as text.
///
/// Gives the number where the text writes one that fits in a `usize`, and
/// [`FieldError::InvalidNumber`] for every other text.
pub fn deserialize_number_from_string(s: &str) -> (r: Result<usize, FieldError>)
    ensures
        match r {
            Ok(number) => number_of(s@) == Some(number as nat),
            Err(e) => e == FieldError::InvalidNumber && !(number_of(s@) matches Some(v) && v
                <= usize::MAX),
        },
{
    broadcast use is_ascii_spec_bytes;

    let ghost digits = number_digits(s@);
    if !s.is_ascii() {
        proof {
            let i = choose|i: int| 0 <= i < s@.len() && !('\0' <= #[trigger] s@[i] <= '\u{7f}');
            if s@[0] == '+' {
                assert(!is_digit(digits[i - 1]));
            } else {
                assert(!is_digit(digits[i]));
            }
        }
        return Err(FieldError::InvalidNumber);
    }
    let bytes = s.as_bytes();
    assert(bytes@.len() == s@.len());
    assert(forall|i: int| 0 <= i < s@.len() ==> bytes@[i] == #[trigger] s@[i] as u8);
    let len: usize = bytes.len();
    let start: usize = if len > 0 && bytes[0] == 43u8 {
        1
    } else {
        0
    };
    assert(digits == s@.skip(start as int));
    if start >= len {
        return Err(FieldError::InvalidNumber);
    }
    let mut value: usize = 0;
    let mut i: usize = start;
    while i < len
        invariant
            start <= i <= len,
            len == s@.len(),
            len == bytes@.len(),
            digits == number_digits(s@),
            digits == s@.skip(start as int),
            forall|k: int| 0 <= k < s@.len() ==> '\0' <= #[trigger] s@[k] <= '\u{7f}',
            forall|k: int| 0 <= k < s@.len() ==> bytes@[k] == #[trigger] s@[k] as u8,
            all_digits(digits.take(i - start)),
            value == digits_value(digits.take(i - start)),
        decreases len - i,
    {
        let byte: u8 = bytes[i];
        let ghost c = s@[i as int];
        assert(c == digits[i - start]);
        if byte < 48u8 || byte > 57u8 {
            assert(!is_digit(c));
            return Err(FieldError::InvalidNumber);
        }
        assert(is_digit(c));
        let ghost longer = digits.take(i + 1 - start);
        proof {
            assert(longer.drop_last() =~= digits.take(i - start));
            assert(longer.last() == c);
            if all_digits(digits) {
                lemma_digits_value_grows(digits, i + 1 - start);
            }
        }
        let digit: usize = (byte - 48u8) as usize;
        let tens: usize = match value.checked_mul(10) {
            Some(tens) => tens,
            None => {
                return Err(FieldError::InvalidNumber);
            },
        };
        value =
        match tens.checked_add(digit) {
            Some(sum) => sum,
            None => {
                return Err(FieldError::InvalidNumber);
            },
        };
        i += 1;
    }
    assert(digits.take(len - start) =~= digits);
    Ok(value)
}

/// The truth value that a Swedish yes or no stands for.
pub open spec fn swedish_bool_of(text: Seq<char>) -> Option<bool> {
    if text == "Ja"@ {
        Some(true)
    } else if text == "Nej"@ {
        Some(false)
    } else {
        None
    }
}

/// Reads a truth value that is written as "Ja" or "Nej".
///
/// Every other text is a [`FieldError::UnknownVariant`].
pub fn deserialize_swedish_bool_from_string(s: &str) -> (r: Result<bool, FieldError>)
    ensures
        match r {
            Ok(b) => swedish_bool_of(s@) == Some(b),
            Err(e) => e == FieldError::UnknownVariant && swedish_bool_of(s@) is None,
        },
{
    proof {
        reveal_strlit("Ja");
        reveal_strlit("Nej");
    }
    let n: usize = s.unicode_len();
    if n == 2 && s.get_char(0) == 'J' && s.get_char(1) == 'a' {
        assert(s@ =~= "Ja"@);
        Ok(true)
    } else if n == 3 && s.get_char(0) == 'N' && s.get_char(1) == 'e' && s.get_char(2) == 'j' {
        assert(s@ =~= "Nej"@);
        Ok(false)
    } else {
        Err(FieldError::UnknownVariant)
    }
}

/// How the provider writes a date: year, month and day with hyphens between.
pub const DATE_FORMAT: &'static str = "%Y-%m-%d";

/// Year, month and day of the date that `chrono` reads at the start of
/// `text` when it is told to read by `format`, or nothing where it reads no
/// date there.
pub uninterp spec fn chrono_date_at_start(text: Seq<char>, format: Seq<char>) -> Option<
    (i32, u32, u32),
>;

/// Calls `chrono::NaiveDate::parse_and_remainder` and hands out the year,
/// month and day of the date it read, dropping the rest of the text. What
/// `chrono` reads depends on the two texts alone.
#[verifier::external_body]
fn date_at_start(text: &str, format: &str) -> (r: Option<(i32, u32, u32)>)
    ensures
        r == chrono_date_at_start(text@, format@),
{
    match chrono::NaiveDate::parse_and_remainder(text, format) {
        Ok((date, _)) => Some((date.year(), date.month(), date.day())),
        Err(_) => None,
    }
}

/// The provider's date for what was read of a text: the year, month and day
/// as they are, a year before year 0 wrapped around the end of `usize`.
pub open spec fn datum_of(read: Option<(i32, u32, u32)>) -> Result<Datum, FieldError> {
    match read {
        Some((year, month, day)) => Ok(
            Datum { ar: year as usize, manad: month as usize, dag: day as usize },
        ),
        None => Err(FieldError::InvalidDate),
    }
}

/// Makes the provider's date of what was read of a text, and a
/// [`FieldError::InvalidDate`] where nothing was read.
pub fn datum_from_parts(read: Option<(i32, u32, u32)>) -> (r: Result<Datum, FieldError>)
    ensures
        r == datum_of(read),
{
    match read {
        Some((year, month, day)) => Ok(
            Datum { ar: year as usize, manad: month as usize, dag: day as usize },
        ),
        None => Err(FieldError::InvalidDate),
    }
}

/// Reads the date at the start of a text; what follows the date is ignored.
pub fn deserialize_date_from_string(s: &str) -> (r: Result<Datum, FieldError>)
    ensures
        r == datum_of(chrono_date_at_start(s@, DATE_FORMAT@)),
{
    datum_from_parts(date_at_start(s, DATE_FORMAT))
}

/// Whether a truth value is false.
pub fn is_false(b: &bool) -> (r: bool)
    ensures
        r == !*b,
{
    !(*b)
}

/// An empty text stands for no text at all.
pub fn empty_string_is_none(s: String) -> (r: Option<String>)
    ensures
        s@.len() == 0 ==> r is None,
        s@.len() > 0 ==> r == Some(s),
{
    if s.as_str().is_empty() {
        None
    } else {
        Some(s)
    }
}

} // verus!
