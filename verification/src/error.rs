//! What can go wrong, by stage, and why.

use vstd::prelude::*;

verus! {

/// Why a file or a directory could not be read.
#[derive(Clone, Copy, Debug, PartialEq, Eq, Structural)]
pub enum IoCause {
    /// There is no such file or directory.
    NotFound,
    /// The process may not read it.
    PermissionDenied,
    /// Any other failure of the operating system.
    Other,
}

/// Why an embedded capture time did not parse under the strict format.
#[derive(Clone, Copy, Debug, PartialEq, Eq, Structural)]
pub enum ParseCause {
    /// A field is outside its permitted range.
    OutOfRange,
    /// No date and time has the fields that were read.
    Impossible,
    /// The fields read do not determine a date and time.
    NotEnough,
    /// A character does not fit the format.
    Invalid,
    /// The text ends before the format does.
    TooShort,
    /// Text is left over after the format has ended.
    TooLong,
    /// The format itself is not understood.
    BadFormat,
    /// The parser gave no reason that this library knows.
    Unknown,
}

/// Why a file could not be moved to its target.
#[derive(Clone, Copy, Debug, PartialEq, Eq, Structural)]
pub enum MoveCause {
    /// The process may not create the directory or the file.
    PermissionDenied,
    /// Source and target lie on different devices.
    CrossDevice,
    /// The target device is full.
    StorageFull,
    /// A file stands at the target path already.
    TargetExists,
    /// Any other failure of the operating system.
    Other,
}

/// An error of a run or of one record.
#[derive(Debug, PartialEq, Eq)]
pub enum AppError {
    /// The source directory does not exist; no batch is attempted.
    InvalidSourceDirectory { expected: String },
    /// The file could not be opened or read.
    IoError(IoCause),
    /// The embedded capture time is malformed; a lower tier may still give
    /// the date.
    DateParseError(ParseCause),
    /// No tier gave a date.
    DateResolutionExhausted,
    /// The move failed.
    MoveIoError(MoveCause),
}

/// An `AppError` with its text as a sequence of characters.
pub enum AppErrorView {
    InvalidSourceDirectory { expected: Seq<char> },
    IoError(IoCause),
    DateParseError(ParseCause),
    DateResolutionExhausted,
    MoveIoError(MoveCause),
}

impl View for AppError {
    type V = AppErrorView;

    open spec fn view(&self) -> AppErrorView {
        match self {
            AppError::InvalidSourceDirectory { expected } => AppErrorView::InvalidSourceDirectory {
                expected: expected@,
            },
            AppError::IoError(cause) => AppErrorView::IoError(*cause),
            AppError::DateParseError(cause) => AppErrorView::DateParseError(*cause),
            AppError::DateResolutionExhausted => AppErrorView::DateResolutionExhausted,
            AppError::MoveIoError(cause) => AppErrorView::MoveIoError(*cause),
        }
    }
}

impl Clone for AppError {
    fn clone(&self) -> (r: AppError)
        ensures
            r@ == self@,
    {
        match self {
            AppError::InvalidSourceDirectory { expected } => AppError::InvalidSourceDirectory {
                expected: expected.clone(),
            },
            AppError::IoError(cause) => AppError::IoError(*cause),
            AppError::DateParseError(cause) => AppError::DateParseError(*cause),
            AppError::DateResolutionExhausted => AppError::DateResolutionExhausted,
            AppError::MoveIoError(cause) => AppError::MoveIoError(*cause),
        }
    }
}

/// The view of an optional error.
pub open spec fn error_view(error: Option<AppError>) -> Option<AppErrorView> {
    match error {
        Some(e) => Some(e@),
        None => None,
    }
}

impl IoCause {
    /// The cause in words.
    pub fn message(&self) -> (r: &'static str)
        ensures
            r@ == io_cause_text(*self),
    {
        match self {
            IoCause::NotFound => "No such file or directory",
            IoCause::PermissionDenied => "Permission denied",
            IoCause::Other => "Input/output error",
        }
    }
}

impl MoveCause {
    /// The cause in words.
    pub fn message(&self) -> (r: &'static str)
        ensures
            r@ == move_cause_text(*self),
    {
        match self {
            MoveCause::PermissionDenied => "Permission denied",
            MoveCause::CrossDevice => "Invalid cross-device link",
            MoveCause::StorageFull => "No space left on device",
            MoveCause::TargetExists => "File exists",
            MoveCause::Other => "Input/output error",
        }
    }
}

impl AppError {
    /// The message that a person reads.
    pub fn message(&self) -> (r: String)
        ensures
            r@ == error_message(self@),
    {
        match self {
            AppError::InvalidSourceDirectory { expected } => {
                let mut r = String::from_str("Invalid source directory: \"");
                r.append(expected.as_str());
                r.append("\" could not be found!");
                r
            },
            AppError::IoError(cause) => {
                let mut r = String::from_str("Could not read the file: ");
                r.append(cause.message());
                r
            },
            AppError::DateParseError(_) => String::from_str(
                "Could not parse the date from DateTimeOriginal!",
            ),
            AppError::DateResolutionExhausted => String::from_str("No date found!"),
            AppError::MoveIoError(cause) => {
                let mut r = String::from_str("Could not move the file: ");
                r.append(cause.message());
                r
            },
        }
    }
}

/// An input-output cause in words.
pub open spec fn io_cause_text(cause: IoCause) -> Seq<char> {
    match cause {
        IoCause::NotFound => "No such file or directory"@,
        IoCause::PermissionDenied => "Permission denied"@,
        IoCause::Other => "Input/output error"@,
    }
}

/// The cause of a failed move in words.
pub open spec fn move_cause_text(cause: MoveCause) -> Seq<char> {
    match cause {
        MoveCause::PermissionDenied => "Permission denied"@,
        MoveCause::CrossDevice => "Invalid cross-device link"@,
        MoveCause::StorageFull => "No space left on device"@,
        MoveCause::TargetExists => "File exists"@,
        MoveCause::Other => "Input/output error"@,
    }
}

/// The message of an error.
pub open spec fn error_message(e: AppErrorView) -> Seq<char> {
    match e {
        AppErrorView::InvalidSourceDirectory { expected } => "Invalid source directory: \""@
            + expected + "\" could not be found!"@,
        AppErrorView::IoError(cause) => "Could not read the file: "@ + io_cause_text(cause),
        AppErrorView::DateParseError(_) => "Could not parse the date from DateTimeOriginal!"@,
        AppErrorView::DateResolutionExhausted => "No date found!"@,
        AppErrorView::MoveIoError(cause) => "Could not move the file: "@ + move_cause_text(cause),
    }
}

} // verus!
