use holiday_calendar::faboul::Datum;
use holiday_calendar::serde_util::{
    datum_from_parts, deserialize_date_from_string, deserialize_number_from_string,
    deserialize_swedish_bool_from_string, empty_string_is_none, is_false, FieldError,
};

#[test]
fn number_with_leading_zero() {
    assert_eq!(deserialize_number_from_string("08"), Ok(8));
    assert_eq!(deserialize_number_from_string("53"), Ok(53));
    assert_eq!(deserialize_number_from_string("5"), Ok(5));
    assert_eq!(deserialize_number_from_string("0"), Ok(0));
    assert_eq!(deserialize_number_from_string("000"), Ok(0));
}

#[test]
fn number_with_plus_sign() {
    assert_eq!(deserialize_number_from_string("+7"), Ok(7));
    assert_eq!(
        deserialize_number_from_string("+"),
        Err(FieldError::InvalidNumber)
    );
    assert_eq!(
        deserialize_number_from_string("++7"),
        Err(FieldError::InvalidNumber)
    );
}

#[test]
fn number_agrees_with_std() {
    let texts = [
        "", "0", "1", "10", "08", "+8", "-8", "-0", "+", "-", " 8", "8 ", "8_0", "1e3", "0x10",
        "٣", "12a", "a12", "４", "18446744073709551615", "18446744073709551616",
        "184467440737095516150", "000000000000000000000000000001", "99999999999999999999x",
        "4294967295", "4294967296",
    ];
    for text in texts {
        assert_eq!(
            deserialize_number_from_string(text).ok(),
            text.parse::<usize>().ok(),
            "{:?}",
            text
        );
    }
}

#[test]
fn number_that_does_not_fit() {
    let too_large = format!("{}0", usize::MAX);
    assert_eq!(
        deserialize_number_from_string(&too_large),
        Err(FieldError::InvalidNumber)
    );
    let largest = format!("{}", usize::MAX);
    assert_eq!(deserialize_number_from_string(&largest), Ok(usize::MAX));
}

#[test]
fn number_from_no_text() {
    assert_eq!(
        deserialize_number_from_string(""),
        Err(FieldError::InvalidNumber)
    );
}

#[test]
fn number_with_other_characters() {
    for text in ["a", "1a", " 1", "1 ", "-1", "1.0", "١"] {
        assert_eq!(
            deserialize_number_from_string(text),
            Err(FieldError::InvalidNumber),
            "{:?}",
            text
        );
    }
}

#[test]
fn swedish_yes_and_no() {
    assert_eq!(deserialize_swedish_bool_from_string("Ja"), Ok(true));
    assert_eq!(deserialize_swedish_bool_from_string("Nej"), Ok(false));
}

#[test]
fn swedish_bool_unknown_text() {
    for text in ["", "ja", "nej", "JA", "Ja ", " Nej", "Yes", "No", "Jaa", "Ne", "Näj", "J", "Nejj"] {
        assert_eq!(
            deserialize_swedish_bool_from_string(text),
            Err(FieldError::UnknownVariant),
            "{:?}",
            text
        );
    }
}

#[test]
fn date_is_read() {
    assert_eq!(
        deserialize_date_from_string("2021-01-01"),
        Ok(Datum { ar: 2021, manad: 1, dag: 1 })
    );
    assert_eq!(
        deserialize_date_from_string("2021-02-22"),
        Ok(Datum { ar: 2021, manad: 2, dag: 22 })
    );
    assert_eq!(
        deserialize_date_from_string("2024-02-29"),
        Ok(Datum { ar: 2024, manad: 2, dag: 29 })
    );
}

#[test]
fn date_with_text_after_it() {
    assert_eq!(
        deserialize_date_from_string("2015-02-18 trailing text"),
        Ok(Datum { ar: 2015, manad: 2, dag: 18 })
    );
}

#[test]
fn date_that_is_none() {
    for text in ["", "2021", "2021-01", "2021-13-01", "2021-02-30", "2023-02-29", "01/02/2021", "datum"] {
        assert_eq!(
            deserialize_date_from_string(text),
            Err(FieldError::InvalidDate),
            "{:?}",
            text
        );
    }
}

#[test]
fn date_before_year_zero_wraps() {
    assert_eq!(
        deserialize_date_from_string("-0001-03-04"),
        Ok(Datum { ar: usize::MAX, manad: 3, dag: 4 })
    );
}

#[test]
fn datum_from_read_parts() {
    assert_eq!(
        datum_from_parts(Some((2021, 1, 1))),
        Ok(Datum { ar: 2021, manad: 1, dag: 1 })
    );
    assert_eq!(
        datum_from_parts(Some((-1, 12, 31))),
        Ok(Datum { ar: usize::MAX, manad: 12, dag: 31 })
    );
    assert_eq!(
        datum_from_parts(Some((-2, 12, 31))),
        Ok(Datum { ar: usize::MAX - 1, manad: 12, dag: 31 })
    );
    assert_eq!(datum_from_parts(None), Err(FieldError::InvalidDate));
}

#[test]
fn is_false_negates() {
    assert!(is_false(&false));
    assert!(!is_false(&true));
}

#[test]
fn empty_string_is_no_string() {
    assert_eq!(empty_string_is_none(String::new()), None);
    assert_eq!(
        empty_string_is_none("Nyårsdagen".to_string()),
        Some("Nyårsdagen".to_string())
    );
    assert_eq!(empty_string_is_none(" ".to_string()), Some(" ".to_string()));
}
