use chrono::{Datelike, NaiveDate};
use holiday_calendar::calendar::{
    build_grid, generate_calendar_data, CalendarData, CalendarDate, CalendarDay,
};
use holiday_calendar::error::Error;
use holiday_calendar::faboul::{Dag, Datum};

fn record(date: NaiveDate) -> Dag {
    Dag {
        datum: Datum {
            ar: date.year() as usize,
            manad: date.month() as usize,
            dag: date.day() as usize,
        },
        veckodag: format!("{:?}", date.weekday()),
        arbetsfri_dag: date.weekday().number_from_monday() >= 6,
        rod_dag: date.weekday().number_from_monday() == 7,
        vecka: date.iso_week().week() as usize,
        dag_i_vecka: date.weekday().number_from_monday() as usize,
        helgdag: None,
        helgdagsafton: None,
        dag_fore_arbetsfri_helgdag: false,
        namnsdag: vec![format!("namn {}", date.day())],
        flaggdag: None,
    }
}

fn month(year: i32, month: u32) -> Vec<Dag> {
    let mut days = Vec::new();
    let mut date = NaiveDate::from_ymd_opt(year, month, 1).unwrap();
    while date.month() == month {
        days.push(record(date));
        date = date.succ_opt().unwrap();
    }
    days
}

fn day_count(grid: &CalendarData) -> usize {
    grid.weeks.iter().map(|w| w.days.len()).sum()
}

fn midsummer() -> Dag {
    Dag {
        datum: Datum { ar: 2024, manad: 6, dag: 22 },
        veckodag: "Lördag".to_string(),
        arbetsfri_dag: true,
        rod_dag: false,
        vecka: 25,
        dag_i_vecka: 6,
        helgdag: None,
        helgdagsafton: None,
        dag_fore_arbetsfri_helgdag: false,
        namnsdag: vec!["Paulina".to_string(), "Paula".to_string()],
        flaggdag: Some("Midsommardagen".to_string()),
    }
}

#[test]
fn date_is_copied_from_the_record() {
    let date = CalendarDate::from(&Datum { ar: 2021, manad: 2, dag: 22 });
    assert_eq!(date, CalendarDate { year: 2021, month: 2, day: 22 });
}

#[test]
fn day_is_copied_from_the_record() {
    let day = CalendarDay::from(&midsummer());
    assert_eq!(
        day,
        CalendarDay {
            date: CalendarDate { year: 2024, month: 6, day: 22 },
            off: true,
            name: None,
            flagday: Some("Midsommardagen".to_string()),
            name_days: vec!["Paulina".to_string(), "Paula".to_string()],
        }
    );
}

#[test]
fn day_takes_off_from_the_work_free_flag_only() {
    let mut d = midsummer();
    d.arbetsfri_dag = false;
    d.rod_dag = true;
    d.dag_fore_arbetsfri_helgdag = true;
    assert!(!CalendarDay::from(&d).off);
}

#[test]
fn holiday_eve_names_the_day() {
    let mut d = midsummer();
    d.helgdag = None;
    d.helgdagsafton = Some("Midsommardagen".to_string());
    assert_eq!(CalendarDay::from(&d).name, Some("Midsommardagen".to_string()));
}

#[test]
fn holiday_names_the_day_without_an_eve() {
    let mut d = midsummer();
    d.helgdag = Some("Midsommarafton".to_string());
    d.helgdagsafton = None;
    assert_eq!(CalendarDay::from(&d).name, Some("Midsommarafton".to_string()));
}

#[test]
fn holiday_eve_wins_over_holiday() {
    let mut d = midsummer();
    d.helgdag = Some("Midsommardagen".to_string());
    d.helgdagsafton = Some("Midsommarafton".to_string());
    assert_eq!(CalendarDay::from(&d).name, Some("Midsommarafton".to_string()));
}

#[test]
fn day_without_holiday_has_no_name() {
    assert_eq!(CalendarDay::from(&midsummer()).name, None);
}

#[test]
fn grid_of_february_2021() {
    let records = month(2021, 2);
    let grid = build_grid(&records, 2021, 2);
    assert_eq!(grid.weeks.len(), 4);
    assert_eq!(
        grid.weeks.iter().map(|w| w.week).collect::<Vec<_>>(),
        vec![5, 6, 7, 8]
    );
    for (w, week) in grid.weeks.iter().enumerate() {
        assert_eq!(week.days.len(), 7);
        for (i, day) in week.days.iter().enumerate() {
            assert_eq!(*day, CalendarDay::from(&records[7 * w + i]));
        }
    }
    assert_eq!(grid.weeks[3].days[0].date, CalendarDate { year: 2021, month: 2, day: 22 });
    assert_eq!((grid.year, grid.month), (2021, 2));
    assert_eq!((grid.year_prev, grid.month_prev), (2021, 1));
    assert_eq!((grid.year_next, grid.month_next), (2021, 3));
}

#[test]
fn grid_of_no_records_has_no_weeks() {
    let grid = build_grid(&Vec::new(), 2021, 2);
    assert!(grid.weeks.is_empty());
    assert_eq!((grid.year, grid.month), (2021, 2));
}

#[test]
fn grid_of_january_goes_back_to_december() {
    let grid = build_grid(&Vec::new(), 2024, 1);
    assert_eq!((grid.year_prev, grid.month_prev), (2023, 12));
    assert_eq!((grid.year_next, grid.month_next), (2024, 2));
}

#[test]
fn grid_of_december_goes_on_to_january() {
    let grid = build_grid(&Vec::new(), 2024, 12);
    assert_eq!((grid.year_prev, grid.month_prev), (2024, 11));
    assert_eq!((grid.year_next, grid.month_next), (2025, 1));
}

#[test]
fn week_is_numbered_by_its_first_record() {
    let mut records = month(2021, 2);
    records[7].vecka = 40;
    records[8].vecka = 41;
    let grid = build_grid(&records, 2021, 2);
    assert_eq!(grid.weeks[1].week, 40);
}

#[test]
fn generated_grid_of_january_2025() {
    let previous = month(2024, 12);
    let requested = month(2025, 1);
    let next = month(2025, 2);
    let grid = generate_calendar_data(2025, 1, &previous, &requested, &next).unwrap();
    assert_eq!(grid.weeks.len(), 5);
    assert_eq!(day_count(&grid), 35);
    assert_eq!(
        grid.weeks.iter().map(|w| w.week).collect::<Vec<_>>(),
        vec![1, 2, 3, 4, 5]
    );
    assert_eq!(grid.weeks[0].days[0].date, CalendarDate { year: 2024, month: 12, day: 30 });
    assert_eq!(grid.weeks[0].days[2].date, CalendarDate { year: 2025, month: 1, day: 1 });
    assert_eq!(grid.weeks[4].days[4].date, CalendarDate { year: 2025, month: 1, day: 31 });
    assert_eq!(grid.weeks[4].days[6].date, CalendarDate { year: 2025, month: 2, day: 2 });
    assert_eq!((grid.year_prev, grid.month_prev), (2024, 12));
    assert_eq!((grid.year_next, grid.month_next), (2025, 2));
}

#[test]
fn generated_grids_are_whole_weeks() {
    for year in [1903, 2024, 2025, 2998] {
        for m in 1..=12 {
            let (py, pm) = if m == 1 { (year - 1, 12) } else { (year, m - 1) };
            let (ny, nm) = if m == 12 { (year + 1, 1) } else { (year, m + 1) };
            let grid = generate_calendar_data(
                year as usize,
                m as usize,
                &month(py, pm),
                &month(year, m),
                &month(ny, nm),
            )
            .unwrap();
            assert!(day_count(&grid) > 0);
            assert_eq!(day_count(&grid) % 7, 0);
            assert!(grid.weeks.len() >= 4 && grid.weeks.len() <= 6);
            for week in &grid.weeks {
                assert_eq!(week.days.len(), 7);
            }
        }
    }
}

#[test]
fn generated_grid_from_no_days_is_an_error() {
    let previous = month(2024, 12);
    let next = month(2025, 2);
    assert_eq!(
        generate_calendar_data(2025, 1, &previous, &Vec::new(), &next),
        Err(Error::InvalidCalendarApiData("no days for month"))
    );
}

#[test]
fn clone_of_a_grid_is_equal() {
    let grid =
        generate_calendar_data(2025, 1, &month(2024, 12), &month(2025, 1), &month(2025, 2))
            .unwrap();
    assert_eq!(grid.clone(), grid);
    assert_eq!(grid.weeks[0].clone(), grid.weeks[0]);
    assert_eq!(grid.weeks[0].days[0].clone(), grid.weeks[0].days[0]);
}
