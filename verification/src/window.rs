//! The days that fill a month's first and last week, taken from the months
//! around it.

use vstd::prelude::*;
use crate::error::{Error, ErrorView};
use crate::faboul::{Dag, DagView};
use crate::year_month::{carried, YearMonth};

verus! {

/// The text of every [`Error::InvalidCalendarApiData`] that stitching gives.
pub const NO_DAYS_FOR_MONTH: &'static str = "no days for month";

/// The three months whose records a grid is built from.
#[derive(Clone, Copy, Debug, PartialEq, Eq, Structural)]
pub struct MonthWindow {
    pub previous: YearMonth,
    pub requested: YearMonth,
    pub next: YearMonth,
}

/// A [`MonthWindow`] as pairs of year and month.
pub struct MonthWindowView {
    pub previous: (int, int),
    pub requested: (int, int),
    pub next: (int, int),
}

impl View for MonthWindow {
    type V = MonthWindowView;

    open spec fn view(&self) -> MonthWindowView {
        MonthWindowView {
            previous: self.previous@,
            requested: self.requested@,
            next: self.next@,
        }
    }
}

/// The months around month `month` of `year`, each with its overflow carried
/// into the year: before January comes December of the year before, after
/// December January of the year after.
pub open spec fn window_of(year: int, month: int) -> MonthWindowView {
    MonthWindowView {
        previous: carried(year, month - 1),
        requested: carried(year, month),
        next: carried(year, month + 1),
    }
}

impl MonthWindow {
    /// The months to fetch for month `month` of `year`.
    ///
    /// January needs a year before it and December a year after it.
    pub fn new(year: usize, month: usize) -> (w: MonthWindow)
        requires
            1 <= month <= 12,
            month == 1 ==> year >= 1,
            month == 12 ==> year < usize::MAX,
        ensures
            w@ == window_of(year as int, month as int),
            w.requested@ == (year as int, month as int),
            w.previous.is_normalized(),
            w.next.is_normalized(),
            w.previous.ordinal() + 1 == w.requested.ordinal(),
            w.requested.ordinal() + 1 == w.next.ordinal(),
    {
        MonthWindow {
            previous: YearMonth::new(year, month - 1),
            requested: YearMonth::new(year, month),
            next: YearMonth::new(year, month + 1),
        }
    }
}

/// How many days the first week lacks before the month's first day.
pub open spec fn leading_needed(requested: Seq<DagView>) -> int {
    requested.first().dag_i_vecka - 1
}

/// How many days the last week lacks after the month's last day.
pub open spec fn trailing_needed(requested: Seq<DagView>) -> int {
    7 - requested.last().dag_i_vecka
}

/// How many of the next month's records are taken: as many as the last week
/// lacks, or all of them where there are fewer.
pub open spec fn trailing_taken(requested: Seq<DagView>, next: Seq<DagView>) -> int {
    if trailing_needed(requested) <= next.len() {
        trailing_needed(requested)
    } else {
        next.len() as int
    }
}

/// The last days of the previous month that the first week lacks, then the
/// month itself, then the first days of the next month that the last week
/// lacks.
pub open spec fn stitched(
    previous: Seq<DagView>,
    requested: Seq<DagView>,
    next: Seq<DagView>,
) -> Seq<DagView> {
    previous.subrange(previous.len() - leading_needed(requested), previous.len() as int)
        + requested + next.take(trailing_taken(requested, next))
}

/// The records can be stitched into whole weeks: the month has days, its
/// first day is no earlier than a Monday and its last no later than a Sunday,
/// the previous month has the days that the first week lacks, and what comes
/// out is a multiple of seven days.
pub open spec fn fills_whole_weeks(
    previous: Seq<DagView>,
    requested: Seq<DagView>,
    next: Seq<DagView>,
) -> bool {
    &&& requested.len() > 0
    &&& 1 <= requested.first().dag_i_vecka
    &&& requested.last().dag_i_vecka <= 7
    &&& leading_needed(requested) <= previous.len()
    &&& stitched(previous, requested, next).len() % 7 == 0
}

/// Stitches the records of three adjacent months into the days of the whole
/// weeks that cover the middle one.
///
/// Fails with [`Error::InvalidCalendarApiData`] exactly when the records do
/// not fill whole weeks.
pub fn get_needed_days(previous: &Vec<Dag>, requested: &Vec<Dag>, next: &Vec<Dag>) -> (r: Result<
    Vec<Dag>,
    Error,
>)
    ensures
        match r {
            Ok(days) => {
                &&& fills_whole_weeks(
                    previous.deep_view(),
                    requested.deep_view(),
                    next.deep_view(),
                )
                &&& days.deep_view() == stitched(
                    previous.deep_view(),
                    requested.deep_view(),
                    next.deep_view(),
                )
            },
            Err(e) => {
                &&& !fills_whole_weeks(
                    previous.deep_view(),
                    requested.deep_view(),
                    next.deep_view(),
                )
                &&& e@ == ErrorView::InvalidCalendarApiData(NO_DAYS_FOR_MONTH@)
            },
        },
{
    let ghost p = previous.deep_view();
    let ghost q = requested.deep_view();
    let ghost n = next.deep_view();
    if requested.len() == 0 {
        return Err(Error::InvalidCalendarApiData(NO_DAYS_FOR_MONTH));
    }
    let first_index: usize = requested[0].dag_i_vecka;
    let last_index: usize = requested[requested.len() - 1].dag_i_vecka;
    assert(q.first() == requested[0]@);
    assert(q.last() == requested[requested.len() - 1]@);
    if first_index < 1 || last_index > 7 {
        return Err(Error::InvalidCalendarApiData(NO_DAYS_FOR_MONTH));
    }
    let extra_days_begin: usize = first_index - 1;
    let extra_days_end: usize = 7 - last_index;
    if extra_days_begin > previous.len() {
        return Err(Error::InvalidCalendarApiData(NO_DAYS_FOR_MONTH));
    }
    let start: usize = previous.len() - extra_days_begin;
    let taken: usize = if extra_days_end <= next.len() {
        extra_days_end
    } else {
        next.len()
    };
    let ghost head = p.subrange(start as int, p.len() as int);
    let ghost tail = n.take(taken as int);

    let mut dagar: Vec<Dag> = Vec::new();
    let mut i: usize = start;
    while i < previous.len()
        invariant
            start <= i <= previous.len(),
            p == previous.deep_view(),
            dagar.deep_view() =~= p.subrange(start as int, i as int),
        decreases previous.len() - i,
    {
        let ghost before = dagar.deep_view();
        let day = previous[i].clone();
        dagar.push(day);
        assert(dagar.deep_view() =~= before.push(previous[i as int]@));
        i += 1;
    }
    let mut j: usize = 0;
    while j < requested.len()
        invariant
            j <= requested.len(),
            q == requested.deep_view(),
            dagar.deep_view() =~= head + q.take(j as int),
        decreases requested.len() - j,
    {
        let ghost before = dagar.deep_view();
        let day = requested[j].clone();
        dagar.push(day);
        assert(dagar.deep_view() =~= before.push(requested[j as int]@));
        j += 1;
    }
    assert(q.take(q.len() as int) =~= q);
    let mut k: usize = 0;
    while k < taken
        invariant
            k <= taken <= next.len(),
            n == next.deep_view(),
            dagar.deep_view() =~= head + q + n.take(k as int),
        decreases taken - k,
    {
        let ghost before = dagar.deep_view();
        let day = next[k].clone();
        dagar.push(day);
        assert(dagar.deep_view() =~= before.push(next[k as int]@));
        k += 1;
    }
    assert(dagar.deep_view() == stitched(p, q, n));
    assert(dagar.deep_view().len() == dagar.len());
    if dagar.len() % 7 != 0 {
        return Err(Error::InvalidCalendarApiData(NO_DAYS_FOR_MONTH));
    }
    Ok(dagar)
}

/// The stitched days hold the month's own days in one piece, after the days
/// that the first week lacked and before those that the last week lacked,
/// and nothing else.
pub proof fn lemma_month_is_inside_window(
    previous: Seq<DagView>,
    requested: Seq<DagView>,
    next: Seq<DagView>,
)
    requires
        fills_whole_weeks(previous, requested, next),
    ensures
        stitched(previous, requested, next).len() == leading_needed(requested) + requested.len()
            + trailing_taken(requested, next),
        stitched(previous, requested, next).subrange(
            leading_needed(requested),
            leading_needed(requested) + requested.len(),
        ) == requested,
        0 <= trailing_taken(requested, next) <= trailing_needed(requested),
{
    let lead = leading_needed(requested);
    let all = stitched(previous, requested, next);
    assert(all.subrange(lead, lead + requested.len()) =~= requested);
}

/// The weekday of the record at position `i`.
pub open spec fn weekday_at(days: Seq<DagView>, i: int) -> int {
    days[i].dag_i_vecka as int
}

/// The records are consecutive days: every weekday is one of the seven, and
/// each record's weekday comes right after that of the record before it,
/// Monday after Sunday.
pub open spec fn weekdays_follow(days: Seq<DagView>) -> bool {
    &&& forall|i: int| 0 <= i < days.len() ==> 1 <= #[trigger] weekday_at(days, i) <= 7
    &&& forall|i: int, j: int|
        0 <= i && j == i + 1 && j < days.len() ==> #[trigger] weekday_at(days, j)
            == #[trigger] weekday_at(days, i) % 7 + 1
}

/// In a run of consecutive days, one record whose weekday fits its distance
/// from `origin` makes every record's weekday fit.
proof fn lemma_weekdays_from_anchor(days: Seq<DagView>, origin: int, anchor: int, i: int)
    requires
        weekdays_follow(days),
        0 <= anchor < days.len(),
        0 <= i < days.len(),
        weekday_at(days, anchor) == (anchor - origin) % 7 + 1,
    ensures
        weekday_at(days, i) == (i - origin) % 7 + 1,
    decreases
            (if i >= anchor {
                i - anchor
            } else {
                anchor - i
            }),
{
    if i > anchor {
        lemma_weekdays_from_anchor(days, origin, anchor, i - 1);
        assert(weekday_at(days, i) == weekday_at(days, i - 1) % 7 + 1);
    } else if i < anchor {
        lemma_weekdays_from_anchor(days, origin, anchor, i + 1);
        assert(weekday_at(days, i + 1) == weekday_at(days, i) % 7 + 1);
        assert(1 <= weekday_at(days, i) <= 7);
    }
}

/// Where the three months' records are consecutive days, every stitched day
/// stands at its weekday's place in its week: the first day of each week is a
/// Monday and the last a Sunday, and the last week lacks no day.
pub proof fn lemma_weeks_start_on_monday(
    previous: Seq<DagView>,
    requested: Seq<DagView>,
    next: Seq<DagView>,
)
    requires
        weekdays_follow(previous + requested + next),
        fills_whole_weeks(previous, requested, next),
    ensures
        forall|i: int|
            0 <= i < stitched(previous, requested, next).len() ==> #[trigger] weekday_at(
                stitched(previous, requested, next),
                i,
            ) == i % 7 + 1,
        weekday_at(stitched(previous, requested, next), 0) == 1,
        trailing_taken(requested, next) == trailing_needed(requested),
{
    let days = previous + requested + next;
    let all = stitched(previous, requested, next);
    let lead = leading_needed(requested);
    let origin = previous.len() - lead;
    let anchor = previous.len() as int;
    lemma_month_is_inside_window(previous, requested, next);
    assert(days[anchor] == requested.first());
    assert(1 <= weekday_at(days, anchor) <= 7);
    assert forall|i: int| 0 <= i < all.len() implies #[trigger] weekday_at(all, i) == i % 7
        + 1 by {
        assert(all[i] == days[origin + i]);
        lemma_weekdays_from_anchor(days, origin, anchor, origin + i);
    }
    let last = lead + requested.len() - 1;
    assert(all[last] == requested.last());
    assert(weekday_at(all, last) == last % 7 + 1);
}

} // verus!
