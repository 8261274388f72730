//! The cache of grids: each month's grid is built once and kept.

use std::collections::HashMap;
use vstd::prelude::*;
use crate::calendar::{
    generate_calendar_data, generated, lemma_generated_grid_is_whole, CalendarData,
    CalendarDataView,
};
use crate::error::{Error, ErrorView};
use crate::faboul::{Dag, DagView};
use crate::window::{window_of, MonthWindow, MonthWindowView, NO_DAYS_FOR_MONTH};
use crate::year_month::YearMonth;

verus! {

/// The first year that a calendar can be asked for.
pub const MIN_YEAR: usize = 1903;

/// The last year that a calendar can be asked for.
pub const MAX_YEAR: usize = 2998;

/// The first month of a year.
pub const MIN_MONTH: usize = 1;

/// The last month of a year.
pub const MAX_MONTH: usize = 12;

/// The year is one a calendar can be asked for and the month is a month of
/// the year.
pub open spec fn date_is_valid(year: int, month: int) -> bool {
    MIN_YEAR <= year <= MAX_YEAR && MIN_MONTH <= month <= MAX_MONTH
}

/// Accepts the years 1903 to 2998 and the months 1 to 12, and rejects every
/// other date with [`Error::InvalidDate`].
pub fn verify_date(year: usize, month: usize) -> (r: Result<(), Error>)
    ensures
        r is Ok <==> date_is_valid(year as int, month as int),
        r matches Err(e) ==> e@ == ErrorView::InvalidDate,
{
    if !(MIN_YEAR <= year && year <= MAX_YEAR) {
        return Err(Error::InvalidDate);
    }
    if !(MIN_MONTH <= month && month <= MAX_MONTH) {
        return Err(Error::InvalidDate);
    }
    Ok(())
}

/// What the caller has from the provider for the month it asks for.
#[derive(Debug, PartialEq, Eq)]
pub enum Fetched {
    /// The provider has not been asked.
    NotYet,
    /// The provider could not deliver.
    Failed(Error),
    /// The records of the month before, of the month itself and of the month
    /// after.
    Months { previous: Vec<Dag>, requested: Vec<Dag>, next: Vec<Dag> },
}

/// A [`Fetched`] over the views of its records.
pub enum FetchedView {
    NotYet,
    Failed(ErrorView),
    Months { previous: Seq<DagView>, requested: Seq<DagView>, next: Seq<DagView> },
}

impl View for Fetched {
    type V = FetchedView;

    open spec fn view(&self) -> FetchedView {
        match *self {
            Fetched::NotYet => FetchedView::NotYet,
            Fetched::Failed(e) => FetchedView::Failed(e@),
            Fetched::Months { previous, requested, next } => FetchedView::Months {
                previous: previous.deep_view(),
                requested: requested.deep_view(),
                next: next.deep_view(),
            },
        }
    }
}

/// What a request comes to.
#[derive(Debug, PartialEq, Eq)]
pub enum Step {
    /// The grid is not cached: fetch these months and ask again with them.
    Fetch(MonthWindow),
    /// The answer to the request.
    Done(Result<CalendarData, Error>),
}

/// A [`Step`] over the views of its grid and its error.
pub enum StepView {
    Fetch(MonthWindowView),
    Done(Result<CalendarDataView, ErrorView>),
}

impl View for Step {
    type V = StepView;

    open spec fn view(&self) -> StepView {
        match *self {
            Step::Fetch(w) => StepView::Fetch(w@),
            Step::Done(Ok(grid)) => StepView::Done(Ok(grid@)),
            Step::Done(Err(e)) => StepView::Done(Err(e@)),
        }
    }
}

/// What a request for month `month` of `year` comes to, given the grids
/// cached so far and what the caller has from the provider.
///
/// A date out of range is rejected whatever else holds. A cached grid is
/// handed out as it is. Without one the caller is told what to fetch, gets
/// its own failure back, or gets the grid that the fetched records give.
pub open spec fn reply_of(
    cache: Map<(int, int), CalendarDataView>,
    year: int,
    month: int,
    fetched: FetchedView,
) -> StepView {
    if !date_is_valid(year, month) {
        StepView::Done(Err(ErrorView::InvalidDate))
    } else if cache.contains_key((year, month)) {
        StepView::Done(Ok(cache[(year, month)]))
    } else {
        match fetched {
            FetchedView::NotYet => StepView::Fetch(window_of(year, month)),
            FetchedView::Failed(e) => StepView::Done(Err(e)),
            FetchedView::Months { previous, requested, next } => match generated(
                previous,
                requested,
                next,
                year,
                month,
            ) {
                Some(grid) => StepView::Done(Ok(grid)),
                None => StepView::Done(
                    Err(ErrorView::InvalidCalendarApiData(NO_DAYS_FOR_MONTH@)),
                ),
            },
        }
    }
}

/// The grids cached after a request: one more where the request built a grid
/// for a month that had none, else the same as before.
pub open spec fn cache_after(
    cache: Map<(int, int), CalendarDataView>,
    year: int,
    month: int,
    fetched: FetchedView,
) -> Map<(int, int), CalendarDataView> {
    if date_is_valid(year, month) && !cache.contains_key((year, month)) {
        match fetched {
            FetchedView::Months { previous, requested, next } => match generated(
                previous,
                requested,
                next,
                year,
                month,
            ) {
                Some(grid) => cache.insert((year, month), grid),
                None => cache,
            },
            _ => cache,
        }
    } else {
        cache
    }
}

/// The number under which a month's grid is kept: months counted from
/// January of year 0.
pub open spec fn key_of(year: int, month: int) -> int {
    year * 12 + month - 1
}

/// The number under which the grid of a month is kept.
fn cache_key(date: YearMonth) -> (key: u64)
    requires
        date_is_valid(date.year as int, date.month as int),
    ensures
        key == key_of(date.year as int, date.month as int),
        key == date.ordinal(),
{
    (date.year * 12 + date.month - 1) as u64
}

/// The grids built so far, by year and month.
pub struct Calendar {
    cache: HashMap<u64, CalendarData>,
}

impl Calendar {
    /// Every kept grid is kept under the number of a valid date and is made
    /// of whole weeks.
    #[verifier::type_invariant]
    spec fn well_formed(self) -> bool {
        forall|key: u64| #[trigger]
            self.cache@.contains_key(key) ==> {
                &&& date_is_valid(key as int / 12, key as int % 12 + 1)
                &&& self.cache@[key]@.is_whole()
            }
    }

    /// The cached grids by year and month.
    pub closed spec fn grids(self) -> Map<(int, int), CalendarDataView> {
        Map::new(
            |date: (int, int)|
                date_is_valid(date.0, date.1) && self.cache@.contains_key(
                    key_of(date.0, date.1) as u64,
                ),
            |date: (int, int)| self.cache@[key_of(date.0, date.1) as u64]@,
        )
    }

    /// A cache without grids.
    pub fn new() -> (calendar: Calendar)
        ensures
            calendar.grids() == Map::<(int, int), CalendarDataView>::empty(),
    {
        let calendar = Calendar { cache: HashMap::new() };
        assert(calendar.grids() =~= Map::<(int, int), CalendarDataView>::empty());
        calendar
    }

    /// Answers a request for the grid of month `month` of `year`, or tells
    /// what to fetch first.
    ///
    /// The date is checked before anything else. A cached grid is handed out
    /// without a look at `fetched`. Where none is cached and the provider has
    /// not been asked, the answer is the window of months to fetch; with their
    /// records the grid is built, kept and handed out. A failure, the
    /// caller's or that of the records, is handed back and nothing is kept.
    pub fn get_calendar_data_for_month(&mut self, year: usize, month: usize, fetched: Fetched) -> (step:
        Step)
        ensures
            step@ == reply_of(old(self).grids(), year as int, month as int, fetched@),
            final(self).grids() == cache_after(
                old(self).grids(),
                year as int,
                month as int,
                fetched@,
            ),
            step matches Step::Done(Ok(grid)) ==> grid@.is_whole(),
    {
        broadcast use vstd::std_specs::hash::group_hash_axioms;

        proof {
            use_type_invariant(&*self);
        }
        match verify_date(year, month) {
            Err(e) => {
                return Step::Done(Err(e));
            },
            Ok(_) => {},
        }
        let key: u64 = cache_key(YearMonth::new(year, month));
        match self.cache.get(&key) {
            Some(grid) => {
                return Step::Done(Ok(grid.clone()));
            },
            None => {},
        }
        match fetched {
            Fetched::NotYet => Step::Fetch(MonthWindow::new(year, month)),
            Fetched::Failed(e) => Step::Done(Err(e)),
            Fetched::Months { previous, requested, next } => {
                match generate_calendar_data(year, month, &previous, &requested, &next) {
                    Ok(data) => {
                        let ghost before = self.grids();
                        // The map leaves the cache while it grows, so that the
                        // cache holds whole grids at every moment.
                        let mut grids: HashMap<u64, CalendarData> = HashMap::new();
                        std::mem::swap(&mut self.cache, &mut grids);
                        grids.insert(key, data.clone());
                        std::mem::swap(&mut self.cache, &mut grids);
                        assert(self.grids() =~= before.insert((year as int, month as int), data@));
                        Step::Done(Ok(data))
                    },
                    Err(e) => Step::Done(Err(e)),
                }
            },
        }
    }
}

/// The grids of a cache are all whole.
pub open spec fn holds_whole_grids(cache: Map<(int, int), CalendarDataView>) -> bool {
    forall|date: (int, int)| #[trigger] cache.contains_key(date) ==> cache[date].is_whole()
}

/// A cache of whole grids hands out whole grids only and stays one: every
/// grid that a request is answered with has whole weeks, and their days are a
/// multiple of seven above zero.
pub proof fn lemma_answers_are_whole_grids(
    cache: Map<(int, int), CalendarDataView>,
    year: int,
    month: int,
    fetched: FetchedView,
)
    requires
        holds_whole_grids(cache),
    ensures
        reply_of(cache, year, month, fetched) matches StepView::Done(Ok(grid)) ==> grid.is_whole(),
        holds_whole_grids(cache_after(cache, year, month, fetched)),
{
    if let FetchedView::Months { previous, requested, next } = fetched {
        lemma_generated_grid_is_whole(previous, requested, next, year, month);
    }
}

/// Once a request has been answered with a grid, the same request is
/// answered with the same grid whatever the caller brings, it is never told
/// to fetch, and the cache stays as it is.
pub proof fn lemma_answered_request_is_cached(
    cache: Map<(int, int), CalendarDataView>,
    year: int,
    month: int,
    fetched: FetchedView,
    again: FetchedView,
)
    requires
        reply_of(cache, year, month, fetched) is Done,
        reply_of(cache, year, month, fetched)->Done_0 is Ok,
    ensures
        reply_of(cache_after(cache, year, month, fetched), year, month, again) == reply_of(
            cache,
            year,
            month,
            fetched,
        ),
        cache_after(cache_after(cache, year, month, fetched), year, month, again) == cache_after(
            cache,
            year,
            month,
            fetched,
        ),
{
}

/// A request that fails, or that is told to fetch, leaves the cache as it
/// was: the month has no grid afterwards unless it had one before, and the
/// same request with good records is answered with their grid.
pub proof fn lemma_failure_keeps_nothing(
    cache: Map<(int, int), CalendarDataView>,
    year: int,
    month: int,
    fetched: FetchedView,
    again: FetchedView,
)
    requires
        !(reply_of(cache, year, month, fetched) matches StepView::Done(Ok(_))),
    ensures
        cache_after(cache, year, month, fetched) == cache,
        reply_of(cache_after(cache, year, month, fetched), year, month, again) == reply_of(
            cache,
            year,
            month,
            again,
        ),
{
}

/// A request changes no grid of the cache and removes none; the only month
/// that can gain one is the requested month.
pub proof fn lemma_cache_only_grows(
    cache: Map<(int, int), CalendarDataView>,
    year: int,
    month: int,
    fetched: FetchedView,
    date: (int, int),
)
    ensures
        cache.contains_key(date) ==> cache_after(cache, year, month, fetched).contains_key(date)
            && cache_after(cache, year, month, fetched)[date] == cache[date],
        cache_after(cache, year, month, fetched).contains_key(date) && !cache.contains_key(date)
            ==> date == (year, month),
{
}

/// A date out of range is rejected without a fetch and without a change,
/// whatever the cache holds and whatever the caller brings.
pub proof fn lemma_invalid_date_is_rejected_first(
    cache: Map<(int, int), CalendarDataView>,
    year: int,
    month: int,
    fetched: FetchedView,
)
    requires
        !date_is_valid(year, month),
    ensures
        reply_of(cache, year, month, fetched) == StepView::Done(Err(ErrorView::InvalidDate)),
        cache_after(cache, year, month, fetched) == cache,
{
}

} // verus!
