//! The calendar grid of a month: whole weeks of days, Monday to Sunday.

use vstd::prelude::*;
use vstd::std_specs::convert::FromSpecImpl;
use crate::error::{Error, ErrorView};
use crate::faboul::{Dag, DagView, Datum};
use crate::window::{fills_whole_weeks, get_needed_days, stitched, NO_DAYS_FOR_MONTH};
use crate::year_month::{carried_month, carried_year};

verus! {

/// A date in the grid.
#[derive(Clone, Copy, Debug, PartialEq, Eq, Structural)]
pub struct CalendarDate {
    pub year: usize,
    pub month: usize,
    pub day: usize,
}

/// One day of the grid.
#[derive(Debug, PartialEq, Eq)]
pub struct CalendarDay {
    pub date: CalendarDate,
    /// Whether the day is free of work.
    pub off: bool,
    /// The holiday eve's name if the day has one, else the holiday's.
    pub name: Option<String>,
    pub flagday: Option<String>,
    pub name_days: Vec<String>,
}

/// One week of the grid.
#[derive(Debug, PartialEq, Eq)]
pub struct CalendarWeek {
    /// The ISO week number.
    pub week: usize,
    /// The seven days of the week, Monday first.
    pub days: Vec<CalendarDay>,
}

/// The grid of one month, with the months to go to before and after it.
#[derive(Debug, PartialEq, Eq)]
pub struct CalendarData {
    pub weeks: Vec<CalendarWeek>,
    pub year: usize,
    pub year_prev: usize,
    pub year_next: usize,
    pub month: usize,
    pub month_prev: usize,
    pub month_next: usize,
}

/// A [`CalendarDay`] with its texts as character sequences.
pub struct CalendarDayView {
    pub date: CalendarDate,
    pub off: bool,
    pub name: Option<Seq<char>>,
    pub flagday: Option<Seq<char>>,
    pub name_days: Seq<Seq<char>>,
}

/// A [`CalendarWeek`] as a sequence of day views.
pub struct CalendarWeekView {
    pub week: usize,
    pub days: Seq<CalendarDayView>,
}

/// A [`CalendarData`] as a sequence of week views.
pub struct CalendarDataView {
    pub weeks: Seq<CalendarWeekView>,
    pub year: int,
    pub year_prev: int,
    pub year_next: int,
    pub month: int,
    pub month_prev: int,
    pub month_next: int,
}

impl View for CalendarDay {
    type V = CalendarDayView;

    open spec fn view(&self) -> CalendarDayView {
        CalendarDayView {
            date: self.date,
            off: self.off,
            name: self.name.deep_view(),
            flagday: self.flagday.deep_view(),
            name_days: self.name_days.deep_view(),
        }
    }
}

impl DeepView for CalendarDay {
    type V = CalendarDayView;

    open spec fn deep_view(&self) -> CalendarDayView {
        self@
    }
}

impl View for CalendarWeek {
    type V = CalendarWeekView;

    open spec fn view(&self) -> CalendarWeekView {
        CalendarWeekView { week: self.week, days: self.days.deep_view() }
    }
}

impl DeepView for CalendarWeek {
    type V = CalendarWeekView;

    open spec fn deep_view(&self) -> CalendarWeekView {
        self@
    }
}

impl View for CalendarData {
    type V = CalendarDataView;

    open spec fn view(&self) -> CalendarDataView {
        CalendarDataView {
            weeks: self.weeks.deep_view(),
            year: self.year as int,
            year_prev: self.year_prev as int,
            year_next: self.year_next as int,
            month: self.month as int,
            month_prev: self.month_prev as int,
            month_next: self.month_next as int,
        }
    }
}

impl DeepView for CalendarData {
    type V = CalendarDataView;

    open spec fn deep_view(&self) -> CalendarDataView {
        self@
    }
}

/// The number of days in a run of weeks.
pub open spec fn total_days(weeks: Seq<CalendarWeekView>) -> int
    decreases weeks.len(),
{
    if weeks.len() == 0 {
        0
    } else {
        total_days(weeks.drop_last()) + weeks.last().days.len()
    }
}

impl CalendarDataView {
    /// Every week has its seven days.
    pub open spec fn weeks_are_whole(self) -> bool {
        forall|w: int| 0 <= w < self.weeks.len() ==> (#[trigger] self.weeks[w]).days.len() == 7
    }

    /// The number of days in the grid.
    pub open spec fn day_count(self) -> int {
        total_days(self.weeks)
    }

    /// The grid is made of whole weeks, and of one at least.
    pub open spec fn is_whole(self) -> bool {
        &&& self.weeks_are_whole()
        &&& self.day_count() > 0
        &&& self.day_count() % 7 == 0
    }
}

/// The grid's date for a provider's date.
pub open spec fn date_of(d: Datum) -> CalendarDate {
    CalendarDate { year: d.ar, month: d.manad, day: d.dag }
}

/// The grid's day for a provider's record. The day is named after the holiday
/// eve where the record has one, else after the holiday.
pub open spec fn day_of(d: DagView) -> CalendarDayView {
    CalendarDayView {
        date: date_of(d.datum),
        off: d.arbetsfri_dag,
        name: if d.helgdagsafton is Some {
            d.helgdagsafton
        } else {
            d.helgdag
        },
        flagday: d.flaggdag,
        name_days: d.namnsdag,
    }
}

/// Week `w` of a run of records: the seven records from position `7 * w`,
/// numbered as the first of them is.
pub open spec fn week_of(records: Seq<DagView>, w: int) -> CalendarWeekView {
    CalendarWeekView {
        week: records[7 * w].vecka,
        days: Seq::new(7, |i: int| day_of(records[7 * w + i])),
    }
}

/// The grid for a run of records that fills whole weeks, with the months
/// before and after the given one.
pub open spec fn grid_of(records: Seq<DagView>, year: int, month: int) -> CalendarDataView {
    CalendarDataView {
        weeks: Seq::new((records.len() / 7) as nat, |w: int| week_of(records, w)),
        year,
        year_prev: carried_year(year, month - 1),
        year_next: carried_year(year, month + 1),
        month,
        month_prev: carried_month(month - 1),
        month_next: carried_month(month + 1),
    }
}

impl From<&Datum> for CalendarDate {
    fn from(v: &Datum) -> (r: CalendarDate) {
        CalendarDate { year: v.ar, month: v.manad, day: v.dag }
    }
}

impl FromSpecImpl<&Datum> for CalendarDate {
    open spec fn obeys_from_spec() -> bool {
        true
    }

    open spec fn from_spec(v: &Datum) -> CalendarDate {
        date_of(*v)
    }
}

impl From<&Dag> for CalendarDay {
    /// The day of the grid for a record: see [`day_of`].
    fn from(d: &Dag) -> (r: CalendarDay)
        ensures
            r@ == day_of(d@),
    {
        let mut name: Option<String> = None;
        if let Some(helgdag) = &d.helgdag {
            name = Some(helgdag.clone());
        }
        if let Some(afton) = &d.helgdagsafton {
            name = Some(afton.clone());
        }
        let r = CalendarDay {
            date: CalendarDate::from(&d.datum),
            off: d.arbetsfri_dag,
            name,
            flagday: d.flaggdag.clone(),
            name_days: d.namnsdag.clone(),
        };
        assert(r.name_days.deep_view() =~= d.namnsdag.deep_view());
        r
    }
}

impl FromSpecImpl<&Dag> for CalendarDay {
    /// A converted day shares no storage with its record, so it equals
    /// `from_spec` in its view only.
    open spec fn obeys_from_spec() -> bool {
        false
    }

    open spec fn from_spec(d: &Dag) -> CalendarDay {
        CalendarDay {
            date: date_of(d.datum),
            off: d.arbetsfri_dag,
            name: if d.helgdagsafton is Some {
                d.helgdagsafton
            } else {
                d.helgdag
            },
            flagday: d.flaggdag,
            name_days: d.namnsdag,
        }
    }
}

impl Clone for CalendarDay {
    /// The copy holds the same values and texts.
    fn clone(&self) -> (r: CalendarDay)
        ensures
            r@ == self@,
    {
        let r = CalendarDay {
            date: self.date,
            off: self.off,
            name: self.name.clone(),
            flagday: self.flagday.clone(),
            name_days: self.name_days.clone(),
        };
        assert(r.name_days.deep_view() =~= self.name_days.deep_view());
        r
    }
}

impl Clone for CalendarWeek {
    /// The copy holds the same days.
    fn clone(&self) -> (r: CalendarWeek)
        ensures
            r@ == self@,
    {
        let r = CalendarWeek { week: self.week, days: self.days.clone() };
        assert(r.days.deep_view() =~= self.days.deep_view());
        r
    }
}

impl Clone for CalendarData {
    /// The copy holds the same weeks and months.
    fn clone(&self) -> (r: CalendarData)
        ensures
            r@ == self@,
    {
        let r = CalendarData {
            weeks: self.weeks.clone(),
            year: self.year,
            year_prev: self.year_prev,
            year_next: self.year_next,
            month: self.month,
            month_prev: self.month_prev,
            month_next: self.month_next,
        };
        assert(r.weeks.deep_view() =~= self.weeks.deep_view());
        r
    }
}

/// A run of whole weeks has seven days for each of them.
pub proof fn lemma_whole_weeks_total(weeks: Seq<CalendarWeekView>)
    requires
        forall|w: int| 0 <= w < weeks.len() ==> (#[trigger] weeks[w]).days.len() == 7,
    ensures
        total_days(weeks) == 7 * weeks.len(),
    decreases weeks.len(),
{
    if weeks.len() > 0 {
        assert forall|w: int| 0 <= w < weeks.drop_last().len() implies (#[trigger] weeks.drop_last()[w]).days.len()
            == 7 by {
            assert(weeks.drop_last()[w] == weeks[w]);
        }
        lemma_whole_weeks_total(weeks.drop_last());
    }
}

/// The grid of a run of records that fills whole weeks has whole weeks only
/// and as many days as there are records.
pub proof fn lemma_grid_holds_every_record(records: Seq<DagView>, year: int, month: int)
    requires
        records.len() % 7 == 0,
    ensures
        grid_of(records, year, month).weeks_are_whole(),
        grid_of(records, year, month).weeks.len() * 7 == records.len(),
        grid_of(records, year, month).day_count() == records.len(),
{
    lemma_whole_weeks_total(grid_of(records, year, month).weeks);
}

/// Builds the grid for a run of records that fills whole weeks: each seven
/// records are a week, numbered as its first record is.
///
/// January needs a year before it and December a year after it.
pub fn build_grid(records: &Vec<Dag>, year: usize, month: usize) -> (grid: CalendarData)
    requires
        records.len() % 7 == 0,
        1 <= month <= 12,
        month == 1 ==> year >= 1,
        month == 12 ==> year < usize::MAX,
    ensures
        grid@ == grid_of(records.deep_view(), year as int, month as int),
        grid@.weeks_are_whole(),
        grid@.day_count() == records.len(),
{
    let ghost recs = records.deep_view();
    let count: usize = records.len() / 7;
    let mut weeks: Vec<CalendarWeek> = Vec::with_capacity(count);
    let mut w: usize = 0;
    while w < count
        invariant
            w <= count,
            count == records.len() / 7,
            recs == records.deep_view(),
            weeks.deep_view() =~= Seq::new(w as nat, |k: int| week_of(recs, k)),
        decreases count - w,
    {
        let week_number: usize = records[7 * w].vecka;
        let mut days: Vec<CalendarDay> = Vec::with_capacity(7);
        let mut i: usize = 0;
        while i < 7
            invariant
                i <= 7,
                w < count,
                count == records.len() / 7,
                recs == records.deep_view(),
                days.deep_view() =~= Seq::new(i as nat, |k: int| day_of(recs[7 * w + k])),
            decreases 7 - i,
        {
            let ghost before = days.deep_view();
            let day = CalendarDay::from(&records[7 * w + i]);
            days.push(day);
            assert(days.deep_view() =~= before.push(day_of(recs[7 * w + i])));
            i += 1;
        }
        let ghost before = weeks.deep_view();
        let week = CalendarWeek { week: week_number, days };
        assert(week@ == week_of(recs, w as int));
        weeks.push(week);
        assert(weeks.deep_view() =~= before.push(week_of(recs, w as int)));
        w += 1;
    }
    let grid = CalendarData {
        weeks,
        year,
        year_prev: if month == 1 {
            year - 1
        } else {
            year
        },
        year_next: if month == 12 {
            year + 1
        } else {
            year
        },
        month,
        month_prev: if month == 1 {
            12
        } else {
            month - 1
        },
        month_next: if month == 12 {
            1
        } else {
            month + 1
        },
    };
    proof {
        lemma_grid_holds_every_record(recs, year as int, month as int);
    }
    grid
}

/// What three months of records give for month `month` of `year`: the grid of
/// the stitched days, or nothing where the records do not fill whole weeks.
pub open spec fn generated(
    previous: Seq<DagView>,
    requested: Seq<DagView>,
    next: Seq<DagView>,
    year: int,
    month: int,
) -> Option<CalendarDataView> {
    if fills_whole_weeks(previous, requested, next) {
        Some(grid_of(stitched(previous, requested, next), year, month))
    } else {
        None
    }
}

/// Every grid that records give is made of whole weeks, of one at least, and
/// holds the stitched days and no others.
pub proof fn lemma_generated_grid_is_whole(
    previous: Seq<DagView>,
    requested: Seq<DagView>,
    next: Seq<DagView>,
    year: int,
    month: int,
)
    ensures
        generated(previous, requested, next, year, month) matches Some(grid) ==> {
            &&& grid.is_whole()
            &&& grid.day_count() == stitched(previous, requested, next).len()
            &&& grid.day_count() >= requested.len()
        },
{
    if fills_whole_weeks(previous, requested, next) {
        lemma_grid_holds_every_record(stitched(previous, requested, next), year, month);
    }
}

/// Builds the grid of month `month` of `year` from the records of the month
/// before it, its own and those of the month after it.
///
/// Fails with [`Error::InvalidCalendarApiData`] exactly when the records do
/// not fill whole weeks. A grid that comes out has whole weeks only, and at
/// least one.
pub fn generate_calendar_data(
    year: usize,
    month: usize,
    previous: &Vec<Dag>,
    requested: &Vec<Dag>,
    next: &Vec<Dag>,
) -> (r: Result<CalendarData, Error>)
    requires
        1 <= month <= 12,
        month == 1 ==> year >= 1,
        month == 12 ==> year < usize::MAX,
    ensures
        match r {
            Ok(grid) => {
                &&& generated(
                    previous.deep_view(),
                    requested.deep_view(),
                    next.deep_view(),
                    year as int,
                    month as int,
                ) == Some(grid@)
                &&& grid@.is_whole()
            },
            Err(e) => {
                &&& generated(
                    previous.deep_view(),
                    requested.deep_view(),
                    next.deep_view(),
                    year as int,
                    month as int,
                ) is None
                &&& e@ == ErrorView::InvalidCalendarApiData(NO_DAYS_FOR_MONTH@)
            },
        },
{
    match get_needed_days(previous, requested, next) {
        Ok(dagar) => {
            assert(dagar.deep_view().len() == dagar.len());
            proof {
                lemma_generated_grid_is_whole(
                    previous.deep_view(),
                    requested.deep_view(),
                    next.deep_view(),
                    year as int,
                    month as int,
                );
            }
            Ok(build_grid(&dagar, year, month))
        },
        Err(e) => Err(e),
    }
}

} // verus!
