//! The day records that the provider delivers, one per calendar day.

use vstd::prelude::*;

verus! {

/// A calendar date as the provider writes it: year, month and day of month.
#[derive(Clone, Copy, Debug, PartialEq, Eq, Structural)]
pub struct Datum {
    pub ar: usize,
    pub manad: usize,
    pub dag: usize,
}

/// What the provider knows about one day.
#[derive(Debug, PartialEq, Eq)]
pub struct Dag {
    /// The date of the day.
    pub datum: Datum,
    /// The weekday's name.
    pub veckodag: String,
    /// Whether the day is free of work.
    pub arbetsfri_dag: bool,
    /// Whether the day is a red day.
    pub rod_dag: bool,
    /// The ISO week number.
    pub vecka: usize,
    /// The position of the day in its week, 1 for Monday to 7 for Sunday.
    pub dag_i_vecka: usize,
    /// The holiday's name, if the day is a holiday.
    pub helgdag: Option<String>,
    /// The holiday eve's name, if the day is one.
    pub helgdagsafton: Option<String>,
    /// Whether the next day is a work-free holiday.
    pub dag_fore_arbetsfri_helgdag: bool,
    /// The names celebrated on the day.
    pub namnsdag: Vec<String>,
    /// The flag day's name, if the day is one.
    pub flaggdag: Option<String>,
}

/// A [`Dag`] with its texts as character sequences.
pub struct DagView {
    pub datum: Datum,
    pub veckodag: Seq<char>,
    pub arbetsfri_dag: bool,
    pub rod_dag: bool,
    pub vecka: usize,
    pub dag_i_vecka: usize,
    pub helgdag: Option<Seq<char>>,
    pub helgdagsafton: Option<Seq<char>>,
    pub dag_fore_arbetsfri_helgdag: bool,
    pub namnsdag: Seq<Seq<char>>,
    pub flaggdag: Option<Seq<char>>,
}

impl View for Dag {
    type V = DagView;

    open spec fn view(&self) -> DagView {
        DagView {
            datum: self.datum,
            veckodag: self.veckodag@,
            arbetsfri_dag: self.arbetsfri_dag,
            rod_dag: self.rod_dag,
            vecka: self.vecka,
            dag_i_vecka: self.dag_i_vecka,
            helgdag: self.helgdag.deep_view(),
            helgdagsafton: self.helgdagsafton.deep_view(),
            dag_fore_arbetsfri_helgdag: self.dag_fore_arbetsfri_helgdag,
            namnsdag: self.namnsdag.deep_view(),
            flaggdag: self.flaggdag.deep_view(),
        }
    }
}

impl DeepView for Dag {
    type V = DagView;

    open spec fn deep_view(&self) -> DagView {
        self@
    }
}

impl Clone for Dag {
    /// The copy holds the same values and texts.
    fn clone(&self) -> (r: Dag)
        ensures
            r@ == self@,
    {
        let r = Dag {
            datum: self.datum,
            veckodag: self.veckodag.clone(),
            arbetsfri_dag: self.arbetsfri_dag,
            rod_dag: self.rod_dag,
            vecka: self.vecka,
            dag_i_vecka: self.dag_i_vecka,
            helgdag: self.helgdag.clone(),
            helgdagsafton: self.helgdagsafton.clone(),
            dag_fore_arbetsfri_helgdag: self.dag_fore_arbetsfri_helgdag,
            namnsdag: self.namnsdag.clone(),
            flaggdag: self.flaggdag.clone(),
        };
        assert(r.namnsdag.deep_view() =~= self.namnsdag.deep_view());
        r
    }
}

/// Where the provider keeps the months, up to and including the last slash
/// before the year.
pub const MONTHS_URL: &'static str = "http://sholiday.faboul.se/dagar/v2.1/";

/// The character that writes a digit.
pub open spec fn digit_char(digit: nat) -> char {
    (digit + '0' as nat) as char
}

/// A number written in base ten, without leading zeros.
pub open spec fn decimal_text(number: nat) -> Seq<char>
    decreases number,
{
    if number < 10 {
        seq![digit_char(number)]
    } else {
        decimal_text(number / 10).push(digit_char(number % 10))
    }
}

/// A number written in base ten with two digits at least: a zero stands
/// before a single digit.
pub open spec fn two_digit_text(number: nat) -> Seq<char> {
    if number < 10 {
        seq!['0'] + decimal_text(number)
    } else {
        decimal_text(number)
    }
}

/// The address of a month's records: the year, a slash and the month in two
/// digits, behind [`MONTHS_URL`].
pub open spec fn month_url_of(year: nat, month: nat) -> Seq<char> {
    MONTHS_URL@ + decimal_text(year) + seq!['/'] + two_digit_text(month)
}

/// The text of one digit.
fn digit_text(digit: usize) -> (text: &'static str)
    requires
        digit < 10,
    ensures
        text@ == seq![digit_char(digit as nat)],
{
    proof {
        reveal_strlit("0");
        reveal_strlit("1");
        reveal_strlit("2");
        reveal_strlit("3");
        reveal_strlit("4");
        reveal_strlit("5");
        reveal_strlit("6");
        reveal_strlit("7");
        reveal_strlit("8");
        reveal_strlit("9");
    }
    let text = match digit {
        0 => "0",
        1 => "1",
        2 => "2",
        3 => "3",
        4 => "4",
        5 => "5",
        6 => "6",
        7 => "7",
        8 => "8",
        _ => "9",
    };
    assert(text@ =~= seq![digit_char(digit as nat)]);
    text
}

/// Writes a number in base ten.
fn decimal_string(number: usize) -> (text: String)
    ensures
        text@ == decimal_text(number as nat),
    decreases number,
{
    if number < 10 {
        digit_text(number).to_owned()
    } else {
        let mut text = decimal_string(number / 10);
        text.append(digit_text(number % 10));
        assert(text@ =~= decimal_text(number as nat));
        text
    }
}

/// The address to get a month's records from.
pub fn month_url(year: usize, month: usize) -> (url: String)
    ensures
        url@ == month_url_of(year as nat, month as nat),
{
    proof {
        reveal_strlit("/");
        reveal_strlit("0");
    }
    let mut url = MONTHS_URL.to_owned();
    url.append(decimal_string(year).as_str());
    url.append("/");
    if month < 10 {
        url.append("0");
    }
    url.append(decimal_string(month).as_str());
    assert(url@ =~= month_url_of(year as nat, month as nat));
    url
}

} // verus!
