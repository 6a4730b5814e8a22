//! What can keep a run from starting, and how it is told.

use vstd::prelude::*;

verus! {

/// An input or output operation failed.
#[verifier::external_type_specification]
#[verifier::external_body]
pub struct ExIoError(std::io::Error);

/// A time could not be written in the form that was asked for.
#[verifier::external_type_specification]
#[verifier::external_body]
pub struct ExFormat(time::error::Format);

/// A description of a form of times makes no sense.
#[verifier::external_type_specification]
#[verifier::external_body]
pub struct ExInvalidFormatDescription(time::error::InvalidFormatDescription);

/// Why a run ended before it had a summary.
#[derive(Debug)]
pub enum AppError {
    HomeMissing,
    InvalidJobs,
    Io(std::io::Error),
    TimeFormat(time::error::Format),
    TimeFormatDescription(time::error::InvalidFormatDescription),
}

/// What there is to say of `error`, if the error inside it, where there is one,
/// reads `cause`.
pub open spec fn message_text(error: AppError, cause: Seq<char>) -> Seq<char> {
    match error {
        AppError::HomeMissing => "HOME is not set"@,
        AppError::InvalidJobs => "--jobs must be at least 1"@,
        AppError::Io(_) => "I/O error: "@ + cause,
        AppError::TimeFormat(_) => "time format error: "@ + cause,
        AppError::TimeFormatDescription(_) => "time format description error: "@ + cause,
    }
}

/// `std::io::Error`'s `Display`. Nothing is claimed of the text, which the operating
/// system may give.
#[verifier::external_body]
fn io_text(error: &std::io::Error) -> (text: String) {
    error.to_string()
}

/// `time::error::Format`'s `Display`. Nothing is claimed of the text: the error is
/// opaque, so there is nothing that it could be told by.
#[verifier::external_body]
fn format_text(error: &time::error::Format) -> (text: String) {
    error.to_string()
}

/// `time::error::InvalidFormatDescription`'s `Display`. Nothing is claimed of the
/// text: the error is opaque, so there is nothing that it could be told by.
#[verifier::external_body]
fn description_text(error: &time::error::InvalidFormatDescription) -> (text: String) {
    error.to_string()
}

impl AppError {
    /// What there is to say of the error, if the one inside it, where there is one,
    /// reads `cause`.
    pub fn message_with(&self, cause: &str) -> (text: String)
        ensures
            text@ == message_text(*self, cause@),
    {
        match self {
            AppError::HomeMissing => "HOME is not set".to_string(),
            AppError::InvalidJobs => "--jobs must be at least 1".to_string(),
            AppError::Io(_) => "I/O error: ".to_string().concat(cause),
            AppError::TimeFormat(_) => "time format error: ".to_string().concat(cause),
            AppError::TimeFormatDescription(_) => {
                "time format description error: ".to_string().concat(cause)
            },
        }
    }

    /// What there is to say of the error.
    pub fn message(&self) -> (text: String)
        ensures
            *self is HomeMissing ==> text@ == "HOME is not set"@,
            *self is InvalidJobs ==> text@ == "--jobs must be at least 1"@,
            exists|cause: Seq<char>| text@ == #[trigger] message_text(*self, cause),
    {
        let cause = match self {
            AppError::Io(error) => io_text(error),
            AppError::TimeFormat(error) => format_text(error),
            AppError::TimeFormatDescription(error) => description_text(error),
            _ => String::new(),
        };
        self.message_with(cause.as_str())
    }
}

/// A message tells errors apart by how it begins, and keeps the whole text of the
/// error inside it, where there is one.
pub proof fn a_message_keeps_its_cause(error: AppError, cause: Seq<char>)
    ensures
        error is HomeMissing || error is InvalidJobs || cause.is_suffix_of(
            message_text(error, cause),
        ),
        error is HomeMissing ==> message_text(error, cause) == "HOME is not set"@,
        error is InvalidJobs ==> message_text(error, cause) == "--jobs must be at least 1"@,
        error is Io ==> message_text(error, cause) == "I/O error: "@ + cause,
        error is TimeFormat ==> message_text(error, cause) == "time format error: "@ + cause,
        error is TimeFormatDescription ==> message_text(error, cause)
            == "time format description error: "@ + cause,
{
    let text = message_text(error, cause);
    if !(error is HomeMissing || error is InvalidJobs) {
        assert(text.subrange(text.len() - cause.len(), text.len() as int) =~= cause);
    }
}

} // verus!
