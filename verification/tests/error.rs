use holiday_calendar::error::Error;

#[test]
fn invalid_date_has_a_fixed_message() {
    assert_eq!(Error::InvalidDate.message(), "Invalid date");
}

#[test]
fn invalid_api_data_shows_its_text() {
    assert_eq!(
        Error::InvalidCalendarApiData("no days for month").message(),
        "no days for month"
    );
}

#[test]
fn failed_fetch_shows_its_text() {
    let e = Error::FailedToRetrieveCalendarApiData("connection refused".to_string());
    assert_eq!(e.message(), "connection refused");
}

#[test]
fn invalid_json_shows_its_text() {
    let e = Error::InvalidFaboulJson("expected value at line 1 column 1".to_string());
    assert_eq!(e.message(), "expected value at line 1 column 1");
}

#[test]
fn every_error_is_a_server_error() {
    assert_eq!(Error::InvalidDate.status_code(), 500);
    assert_eq!(Error::InvalidCalendarApiData("x").status_code(), 500);
    assert_eq!(
        Error::FailedToRetrieveCalendarApiData(String::new()).status_code(),
        500
    );
    assert_eq!(Error::InvalidFaboulJson(String::new()).status_code(), 500);
}
