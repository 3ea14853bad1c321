//! The shared error vocabulary: every fallible operation of the store and of
//! the validated value types reports one of these values to its caller.

use vstd::prelude::*;

verus! {

/// A point in time, in seconds since the unix epoch.
pub type UnixTime = i64;

/// The identifier of a stored todo record, as a 128-bit value.
pub type TodoId = u128;

/// The result type used throughout the library.
pub type AppResult<T> = Result<T, AppError>;

/// Every failure the library can report. All failures are returned as values
/// to the immediate caller; none is fatal and none is retried internally.
#[derive(Clone, Debug, PartialEq, Eq)]
pub enum AppError {
    /// A batch-target set was empty.
    CollectionIsEmpty,
    /// A result-limit count did not fit the platform index type.
    DataConversionU32ToUsize,
    /// A count did not fit an unsigned 64-bit value.
    DataConversionUsizeToU64(usize),
    /// A deadline string was not in the expected format, or named an
    /// impossible calendar date or hour.
    DateTimeParseError { input: String, expected_format: String },
    /// A title was empty after trimming.
    EmptyTodoTitle,
    /// An identifier string could not be parsed.
    InvalidUuid(String),
    /// A trimmed title exceeded the maximum length, in bytes.
    TooLongTodoTitle { input: String, expected_len: usize },
    /// No record with the given identifier exists in the store.
    TodoNotFound(TodoId),
    /// An update request carried no field at all.
    UpdateHasNoChanges,
}

/// Maps the error of a result to a short stable label, for callers that keep
/// errors as plain text. Textual formatting of the payload belongs to the
/// embedding layer, not to the store.
pub trait AppResultExt<T> {
    fn err_as_string(self) -> (r: Result<T, String>) where Self: core::marker::Sized;
}

impl<T> AppResultExt<T> for Result<T, AppError> {
    fn err_as_string(self) -> (r: Result<T, String>)
        ensures
            self matches Ok(v) ==> r == Result::<T, String>::Ok(v),
            self is Err ==> r is Err,
    {
        match self {
            Ok(v) => Ok(v),
            Err(e) => Err(e.label()),
        }
    }
}

impl AppError {
    /// A short stable label naming the error kind.
    pub fn label(&self) -> (r: String)
        ensures
            r@.len() > 0,
    {
        proof {
            reveal_strlit("CollectionIsEmpty");
            reveal_strlit("DataConversionU32ToUsize");
            reveal_strlit("DataConversionUsizeToU64");
            reveal_strlit("DateTimeParseError");
            reveal_strlit("EmptyTodoTitle");
            reveal_strlit("InvalidUuid");
            reveal_strlit("TooLongTodoTitle");
            reveal_strlit("TodoNotFound");
            reveal_strlit("UpdateHasNoChanges");
        }
        match self {
            AppError::CollectionIsEmpty => "CollectionIsEmpty".to_owned(),
            AppError::DataConversionU32ToUsize => "DataConversionU32ToUsize".to_owned(),
            AppError::DataConversionUsizeToU64(_) => "DataConversionUsizeToU64".to_owned(),
            AppError::DateTimeParseError { .. } => "DateTimeParseError".to_owned(),
            AppError::EmptyTodoTitle => "EmptyTodoTitle".to_owned(),
            AppError::InvalidUuid(_) => "InvalidUuid".to_owned(),
            AppError::TooLongTodoTitle { .. } => "TooLongTodoTitle".to_owned(),
            AppError::TodoNotFound(_) => "TodoNotFound".to_owned(),
            AppError::UpdateHasNoChanges => "UpdateHasNoChanges".to_owned(),
        }
    }
}

} // verus!
