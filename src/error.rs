//! The application's error type and constructors for common cases.
use vstd::prelude::*;
use vstd::string::*;

verus! {

/// What kind of failure an error reports.
#[derive(Debug, Clone, Copy, PartialEq, Eq, Structural)]
pub enum ErrorCode {
    OcrInitialization,
    OcrProcessing,
    ImageLoading,
    ImagePreprocessing,
    GrammarService,
    LanguageToolConnection,
    GrammarProcessing,
    FileNotFound,
    FileAccess,
    InvalidFileFormat,
    FileValidation,
    CsvExport,
    CsvImport,
    DataValidation,
    BatchProcessing,
    BatchCancellation,
    InvalidInput,
    ServiceUnavailable,
    InternalError,
}

#[derive(Debug)]
pub struct AppError {
    pub code: ErrorCode,
    pub message: String,
    pub details: Option<String>,
}

/// The text of an error as a command reports it: the message, followed by
/// `": "` and the details when there are any.
pub open spec fn error_text(message: Seq<char>, details: Option<Seq<char>>) -> Seq<char> {
    match details {
        Some(d) => message + ": "@ + d,
        None => message,
    }
}

pub open spec fn details_view(d: Option<String>) -> Option<Seq<char>> {
    match d {
        Some(s) => Some(s@),
        None => None,
    }
}

/// `a` followed by `b`.
fn join(a: &str, b: &str) -> (r: String)
    ensures
        r@ == a@ + b@,
{
    let s = a.to_string();
    s.concat(b)
}

impl AppError {
    pub fn new(code: ErrorCode, message: &str) -> (r: AppError)
        ensures
            r.code == code,
            r.message@ == message@,
            r.details is None,
    {
        AppError { code, message: message.to_string(), details: None }
    }

    pub fn with_details(code: ErrorCode, message: &str, details: &str) -> (r: AppError)
        ensures
            r.code == code,
            r.message@ == message@,
            r.details matches Some(d) && d@ == details@,
    {
        AppError { code, message: message.to_string(), details: Some(details.to_string()) }
    }

    /// The error as the string a command returns.
    pub fn to_tauri_error(&self) -> (r: String)
        ensures
            r@ == error_text(self.message@, details_view(self.details)),
    {
        match &self.details {
            Some(d) => join(join(self.message.as_str(), ": ").as_str(), d.as_str()),
            None => self.message.clone(),
        }
    }
}

/// An error result turned into one whose error is the command string.
pub fn tauri_result<T>(r: Result<T, AppError>) -> (out: Result<T, String>)
    ensures
        match r {
            Ok(v) => out == Ok::<T, String>(v),
            Err(e) => out matches Err(s) && s@ == error_text(e.message@, details_view(e.details)),
        },
{
    match r {
        Ok(v) => Ok(v),
        Err(e) => Err(e.to_tauri_error()),
    }
}

/// Conversion of a result into one that a command can return.
pub trait ToTauriResult<T> {
    fn to_tauri_result(self) -> Result<T, String>;
}

impl<T> ToTauriResult<T> for Result<T, AppError> {
    fn to_tauri_result(self) -> Result<T, String> {
        tauri_result(self)
    }
}

pub fn file_not_found(path: &str) -> (r: AppError)
    ensures
        r.code == ErrorCode::FileNotFound,
        r.message@ == "File not found: "@ + path@,
        r.details is None,
{
    AppError { code: ErrorCode::FileNotFound, message: join("File not found: ", path), details: None }
}

pub fn invalid_file_format(path: &str, expected: &str) -> (r: AppError)
    ensures
        r.code == ErrorCode::InvalidFileFormat,
        r.message@ == "Invalid file format for: "@ + path@,
        r.details matches Some(d) && d@ == "Expected: "@ + expected@,
{
    AppError {
        code: ErrorCode::InvalidFileFormat,
        message: join("Invalid file format for: ", path),
        details: Some(join("Expected: ", expected)),
    }
}

pub fn service_unavailable(service: &str) -> (r: AppError)
    ensures
        r.code == ErrorCode::ServiceUnavailable,
        r.message@ == service@ + " service is currently unavailable"@,
        r.details is None,
{
    AppError {
        code: ErrorCode::ServiceUnavailable,
        message: join(service, " service is currently unavailable"),
        details: None,
    }
}

pub fn validation_failed(field: &str, reason: &str) -> (r: AppError)
    ensures
        r.code == ErrorCode::DataValidation,
        r.message@ == "Validation failed for "@ + field@,
        r.details matches Some(d) && d@ == reason@,
{
    AppError {
        code: ErrorCode::DataValidation,
        message: join("Validation failed for ", field),
        details: Some(reason.to_string()),
    }
}

} // verus!
