//! The failures that building a calendar can end in.

use vstd::prelude::*;

verus! {

/// Why a calendar could not be produced.
#[derive(Debug, PartialEq, Eq)]
pub enum Error {
    /// The provider answered, but its records do not form whole weeks.
    InvalidCalendarApiData(&'static str),
    /// The provider could not be reached; the text describes the transport
    /// failure.
    FailedToRetrieveCalendarApiData(String),
    /// The provider's answer was not the expected JSON; the text is the
    /// parser's message.
    InvalidFaboulJson(String),
    /// The requested year or month is outside the accepted range.
    InvalidDate,
}

/// An [`Error`] with its texts as character sequences.
pub enum ErrorView {
    InvalidCalendarApiData(Seq<char>),
    FailedToRetrieveCalendarApiData(Seq<char>),
    InvalidFaboulJson(Seq<char>),
    InvalidDate,
}

impl ErrorView {
    /// The text shown to whoever asked.
    pub open spec fn message(self) -> Seq<char> {
        match self {
            ErrorView::InvalidCalendarApiData(m) => m,
            ErrorView::FailedToRetrieveCalendarApiData(m) => m,
            ErrorView::InvalidFaboulJson(m) => m,
            ErrorView::InvalidDate => "Invalid date"@,
        }
    }
}

impl View for Error {
    type V = ErrorView;

    open spec fn view(&self) -> ErrorView {
        match *self {
            Error::InvalidCalendarApiData(m) => ErrorView::InvalidCalendarApiData(m@),
            Error::FailedToRetrieveCalendarApiData(m) => ErrorView::FailedToRetrieveCalendarApiData(
                m@,
            ),
            Error::InvalidFaboulJson(m) => ErrorView::InvalidFaboulJson(m@),
            Error::InvalidDate => ErrorView::InvalidDate,
        }
    }
}

impl Error {
    /// The text shown to whoever asked: the carried text, or "Invalid date".
    pub fn message(&self) -> (text: String)
        ensures
            text@ == self@.message(),
    {
        match self {
            Error::InvalidCalendarApiData(m) => (*m).to_owned(),
            Error::FailedToRetrieveCalendarApiData(m) => m.clone(),
            Error::InvalidFaboulJson(m) => m.clone(),
            Error::InvalidDate => "Invalid date".to_owned(),
        }
    }

    /// The HTTP status that every failure is reported with: 500.
    pub fn status_code(&self) -> (code: u16)
        ensures
            code == 500,
    {
        500
    }
}

} // verus!
