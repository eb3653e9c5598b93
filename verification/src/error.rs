//! The library's error type.
use crate::text::push_text;
use vstd::prelude::*;

verus! {

#[verifier::external_type_specification]
#[verifier::external_body]
pub struct ExSqliteError(rusqlite::Error);

#[verifier::external_type_specification]
#[verifier::external_body]
pub struct ExIoError(std::io::Error);

#[verifier::external_type_specification]
#[verifier::external_body]
pub struct ExChronoParseError(chrono::ParseError);

/// Everything that can go wrong.
#[derive(Debug)]
pub enum AppError {
    Database(rusqlite::Error),
    Io(std::io::Error),
    DateParse(chrono::ParseError),
    DurationParse(String),
    MissingTaskId,
    DataDirectoryNotFound,
    HomeDirectoryNotFound,
}

pub type AppResult<T> = Result<T, AppError>;

/// `Display` of a `rusqlite::Error`. Nothing is claimed of the text.
#[verifier::external_body]
fn sqlite_error_text(e: &rusqlite::Error) -> String {
    format!("{}", e)
}

/// `Display` of a `std::io::Error`. Nothing is claimed of the text.
#[verifier::external_body]
fn io_error_text(e: &std::io::Error) -> String {
    format!("{}", e)
}

/// `Display` of a `chrono::ParseError`. Nothing is claimed of the text.
#[verifier::external_body]
fn date_error_text(e: &chrono::ParseError) -> String {
    format!("{}", e)
}

impl AppError {
    /// The message for the error: `Database error: ..`, `IO error: ..`,
    /// `Date parsing error: ..`, `Duration parsing error: ..`,
    /// `Task ID is required`, `Data directory not found`,
    /// `Home directory not found`.
    pub fn message(&self) -> (r: String)
        ensures
            self matches AppError::DurationParse(m) ==> r@ == "Duration parsing error: "@ + m@,
            self is MissingTaskId ==> r@ == "Task ID is required"@,
            self is DataDirectoryNotFound ==> r@ == "Data directory not found"@,
            self is HomeDirectoryNotFound ==> r@ == "Home directory not found"@,
            self is Database ==> exists|rest: Seq<char>| r@ == "Database error: "@ + rest,
            self is Io ==> exists|rest: Seq<char>| r@ == "IO error: "@ + rest,
            self is DateParse ==> exists|rest: Seq<char>| r@ == "Date parsing error: "@ + rest,
    {
        let mut s = String::new();
        match self {
            AppError::Database(e) => {
                push_text(&mut s, "Database error: ");
                let t = sqlite_error_text(e);
                push_text(&mut s, t.as_str());
                assert(s@ =~= "Database error: "@ + t@);
            },
            AppError::Io(e) => {
                push_text(&mut s, "IO error: ");
                let t = io_error_text(e);
                push_text(&mut s, t.as_str());
                assert(s@ =~= "IO error: "@ + t@);
            },
            AppError::DateParse(e) => {
                push_text(&mut s, "Date parsing error: ");
                let t = date_error_text(e);
                push_text(&mut s, t.as_str());
                assert(s@ =~= "Date parsing error: "@ + t@);
            },
            AppError::DurationParse(m) => {
                push_text(&mut s, "Duration parsing error: ");
                push_text(&mut s, m.as_str());
                assert(s@ =~= "Duration parsing error: "@ + m@);
            },
            AppError::MissingTaskId => {
                push_text(&mut s, "Task ID is required");
                assert(s@ =~= "Task ID is required"@);
            },
            AppError::DataDirectoryNotFound => {
                push_text(&mut s, "Data directory not found");
                assert(s@ =~= "Data directory not found"@);
            },
            AppError::HomeDirectoryNotFound => {
                push_text(&mut s, "Home directory not found");
                assert(s@ =~= "Home directory not found"@);
            },
        }
        s
    }
}

impl From<std::io::Error> for AppError {
    fn from(e: std::io::Error) -> (r: AppError) {
        AppError::Io(e)
    }
}

impl vstd::std_specs::convert::FromSpecImpl<std::io::Error> for AppError {
    open spec fn obeys_from_spec() -> bool {
        true
    }

    open spec fn from_spec(v: std::io::Error) -> AppError {
        AppError::Io(v)
    }
}

impl From<rusqlite::Error> for AppError {
    fn from(e: rusqlite::Error) -> (r: AppError) {
        AppError::Database(e)
    }
}

impl vstd::std_specs::convert::FromSpecImpl<rusqlite::Error> for AppError {
    open spec fn obeys_from_spec() -> bool {
        true
    }

    open spec fn from_spec(v: rusqlite::Error) -> AppError {
        AppError::Database(v)
    }
}

impl From<chrono::ParseError> for AppError {
    fn from(e: chrono::ParseError) -> (r: AppError) {
        AppError::DateParse(e)
    }
}

impl vstd::std_specs::convert::FromSpecImpl<chrono::ParseError> for AppError {
    open spec fn obeys_from_spec() -> bool {
        true
    }

    open spec fn from_spec(v: chrono::ParseError) -> AppError {
        AppError::DateParse(v)
    }
}

} // verus!
