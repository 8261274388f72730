use holiday_calendar::year_month::YearMonth;

#[test]
fn month_in_range_is_kept() {
    for month in 1..=12 {
        let ym = YearMonth::new(2024, month);
        assert_eq!(ym, YearMonth { year: 2024, month });
    }
}

#[test]
fn month_thirteen_is_january_of_next_year() {
    assert_eq!(YearMonth::new(2024, 13), YearMonth { year: 2025, month: 1 });
    assert_eq!(YearMonth::new(2024, 13), YearMonth::new(2025, 1));
}

#[test]
fn month_zero_is_december_of_previous_year() {
    assert_eq!(YearMonth::new(2024, 0), YearMonth { year: 2023, month: 12 });
    assert_eq!(YearMonth::new(2024, 0), YearMonth::new(2023, 12));
}

#[test]
fn several_years_are_carried() {
    assert_eq!(YearMonth::new(2000, 24), YearMonth { year: 2001, month: 12 });
    assert_eq!(YearMonth::new(2000, 25), YearMonth { year: 2002, month: 1 });
    assert_eq!(YearMonth::new(2000, 12 * 7 + 5), YearMonth { year: 2007, month: 5 });
}

#[test]
fn twelve_months_more_are_one_year_more() {
    for month in 0..40 {
        assert_eq!(YearMonth::new(1999, month + 12), YearMonth::new(2000, month));
    }
}

#[test]
fn month_zero_of_year_one_is_december_of_year_zero() {
    assert_eq!(YearMonth::new(1, 0), YearMonth { year: 0, month: 12 });
}

#[test]
fn december_of_the_last_year_is_kept() {
    assert_eq!(
        YearMonth::new(usize::MAX, 12),
        YearMonth { year: usize::MAX, month: 12 }
    );
}
