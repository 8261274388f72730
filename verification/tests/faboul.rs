use holiday_calendar::faboul::{month_url, Dag, Datum};
use holiday_calendar::serde_util::{
    deserialize_date_from_string, deserialize_number_from_string,
    deserialize_swedish_bool_from_string, empty_string_is_none,
};

#[test]
fn month_url_pads_the_month() {
    assert_eq!(
        month_url(2021, 2),
        "http://sholiday.faboul.se/dagar/v2.1/2021/02"
    );
    assert_eq!(
        month_url(2024, 12),
        "http://sholiday.faboul.se/dagar/v2.1/2024/12"
    );
    assert_eq!(
        month_url(1903, 1),
        "http://sholiday.faboul.se/dagar/v2.1/1903/01"
    );
}

#[test]
fn month_url_agrees_with_std_formatting() {
    for (year, month) in [(0, 0), (7, 9), (10, 10), (99, 100), (2998, 12), (123456, 1234), (usize::MAX, usize::MAX)] {
        assert_eq!(
            month_url(year, month),
            format!(
                "http://sholiday.faboul.se/dagar/v2.1/{}/{:0>2}",
                year, month
            )
        );
    }
}

#[test]
fn test_basic() {
    let d = Dag {
        datum: deserialize_date_from_string("2021-01-01").unwrap(),
        veckodag: "Fredag".to_string(),
        arbetsfri_dag: deserialize_swedish_bool_from_string("Ja").unwrap(),
        rod_dag: deserialize_swedish_bool_from_string("Ja").unwrap(),
        vecka: deserialize_number_from_string("53").unwrap(),
        dag_i_vecka: deserialize_number_from_string("5").unwrap(),
        helgdag: Some("Nyårsdagen".to_string()),
        helgdagsafton: None,
        dag_fore_arbetsfri_helgdag: false,
        namnsdag: Vec::new(),
        flaggdag: empty_string_is_none("Nyårsdagen".to_string()),
    };

    assert_eq!(
        d.datum,
        Datum {
            ar: 2021,
            manad: 1,
            dag: 1,
        }
    );
    assert_eq!(d.vecka, 53);
    assert_eq!(d.dag_i_vecka, 5);
    assert_eq!(d.helgdag, Some("Nyårsdagen".into()));
    assert!(d.namnsdag.is_empty());
    assert_eq!(d.flaggdag, Some("Nyårsdagen".into()));
}

#[test]
fn clone_of_a_day_record_is_equal() {
    let d = Dag {
        datum: Datum { ar: 2021, manad: 4, dag: 2 },
        veckodag: "Fredag".to_string(),
        arbetsfri_dag: true,
        rod_dag: true,
        vecka: 13,
        dag_i_vecka: 5,
        helgdag: Some("Långfredagen".to_string()),
        helgdagsafton: None,
        dag_fore_arbetsfri_helgdag: false,
        namnsdag: vec!["Gudmund".to_string(), "Ingemund".to_string()],
        flaggdag: None,
    };
    assert_eq!(d.clone(), d);
}
