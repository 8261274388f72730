//! A year and month pair whose month overflow is carried into the year.

use vstd::prelude::*;
use vstd::arithmetic::div_mod::lemma_fundamental_div_mod_converse;

verus! {

/// A calendar month of a year. A value is normalized when its month lies in
/// `1..=12`; [`YearMonth::new`] builds normalized values only.
#[derive(Clone, Copy, Debug, PartialEq, Eq, Structural, Hash)]
pub struct YearMonth {
    pub year: usize,
    pub month: usize,
}

/// The year that a raw month number lands in once every twelve months have
/// been carried: month 0 is December of the year before, month 13 January of
/// the year after.
pub open spec fn carried_year(year: int, month: int) -> int {
    year + (month - 1) / 12
}

/// The month in `1..=12` that a raw month number denotes.
pub open spec fn carried_month(month: int) -> int {
    (month - 1) % 12 + 1
}

/// The year and month that a raw pair denotes.
pub open spec fn carried(year: int, month: int) -> (int, int) {
    (carried_year(year, month), carried_month(month))
}

impl View for YearMonth {
    type V = (int, int);

    /// The year and the month as integers.
    open spec fn view(&self) -> (int, int) {
        (self.year as int, self.month as int)
    }
}

impl YearMonth {
    /// The month lies in `1..=12`.
    pub open spec fn is_normalized(self) -> bool {
        1 <= self.month <= 12
    }

    /// Months counted from January of year 0.
    pub open spec fn ordinal(self) -> int {
        self.year * 12 + self.month - 1
    }

    /// Normalizes a raw pair by moving whole years out of the month.
    ///
    /// Month 0 needs a year to borrow from, and the carried year has to fit in
    /// a `usize`.
    pub fn new(year: usize, month: usize) -> (r: YearMonth)
        requires
            0 <= carried_year(year as int, month as int) <= usize::MAX,
        ensures
            r@ == carried(year as int, month as int),
            r.is_normalized(),
            r.ordinal() == year * 12 + month - 1,
    {
        let mut y: usize = year;
        let mut m: usize = month;
        while m < 1
            invariant
                (month == 0 && m == 0 && y == year && year >= 1) || (m >= 1 && y * 12 + m == year
                    * 12 + month),
            decreases (if m < 1 { 1int } else { 0int }),
        {
            m += 12;
            y -= 1;
        }
        while m > 12
            invariant
                m >= 1,
                y * 12 + m == year * 12 + month,
                0 <= carried_year(year as int, month as int) <= usize::MAX,
            decreases m,
        {
            proof {
                lemma_carry(y as int, m as int, year as int, month as int);
            }
            m -= 12;
            y += 1;
        }
        proof {
            lemma_carry(y as int, m as int, year as int, month as int);
        }
        YearMonth { year: y, month: m }
    }
}

/// Two raw pairs that count the same number of months carry to the same year
/// and month, and a pair whose month is in `1..=12` carries to itself.
proof fn lemma_carry(y: int, m: int, year: int, month: int)
    requires
        m >= 1,
        y * 12 + m == year * 12 + month,
    ensures
        carried_year(year, month) == carried_year(y, m),
        carried_month(month) == carried_month(m),
        m <= 12 ==> carried_year(y, m) == y && carried_month(m) == m,
        m > 12 ==> carried_year(y, m) > y,
{
    let q = (m - 1) / 12;
    let r = (m - 1) % 12;
    // month - 1 == 12 * (y - year + q) + r
    lemma_fundamental_div_mod_converse(month - 1, 12, y - year + q, r);
}

/// Twelve months more are one year more: month `m + 12` of year `y` is month
/// `m` of year `y + 1`. In particular month 13 of a year is January of the
/// next, and month 0 is December of the year before.
pub proof fn lemma_month_carries_into_year(year: int, month: int)
    ensures
        carried(year, month + 12) == carried(year + 1, month),
        carried(year, 13) == carried(year + 1, 1),
        carried(year, 13) == (year + 1, 1int),
        carried(year, 0) == carried(year - 1, 12),
        carried(year, 0) == (year - 1, 12int),
{
    let q = (month - 1) / 12;
    let r = (month - 1) % 12;
    lemma_fundamental_div_mod_converse(month + 12 - 1, 12, q + 1, r);
}

} // verus!
