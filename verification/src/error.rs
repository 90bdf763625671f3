//! The library's errors: a class and a message.

use vstd::prelude::*;

verus! {

/// The classes of failure.
#[derive(Clone, Copy, Debug, PartialEq, Eq, Structural)]
pub enum ErrorKind {
    /// The mail server could not be reached, or refused the login or the inbox.
    Transport,
    /// A document could not be turned into text.
    Conversion,
    /// The extraction service's answer held no usable JSON object.
    Extraction,
    /// A value was missing or not allowed, or a review item was already decided.
    Validation,
    /// No row has the identifier that was given.
    NotFound,
    /// Anything else, such as a message that cannot be decomposed.
    Internal,
}

/// An error of one class, with a message for the operator.
#[derive(Clone, Debug, PartialEq, Eq)]
pub enum AppError {
    Transport(String),
    Conversion(String),
    Extraction(String),
    Validation(String),
    NotFound(String),
    Internal(String),
}

pub type AppResult<T> = Result<T, AppError>;

/// An error as contracts speak of it: its class and its message.
pub struct AppErrorView {
    pub kind: ErrorKind,
    pub detail: Seq<char>,
}

impl View for AppError {
    type V = AppErrorView;

    open spec fn view(&self) -> AppErrorView {
        AppErrorView { kind: self.spec_kind(), detail: self.detail() }
    }
}

impl AppError {
    pub open spec fn spec_kind(&self) -> ErrorKind {
        match self {
            AppError::Transport(_) => ErrorKind::Transport,
            AppError::Conversion(_) => ErrorKind::Conversion,
            AppError::Extraction(_) => ErrorKind::Extraction,
            AppError::Validation(_) => ErrorKind::Validation,
            AppError::NotFound(_) => ErrorKind::NotFound,
            AppError::Internal(_) => ErrorKind::Internal,
        }
    }

    /// The message, without the class.
    pub open spec fn detail(&self) -> Seq<char> {
        match self {
            AppError::Transport(m) => m@,
            AppError::Conversion(m) => m@,
            AppError::Extraction(m) => m@,
            AppError::Validation(m) => m@,
            AppError::NotFound(m) => m@,
            AppError::Internal(m) => m@,
        }
    }

    /// The class of this error.
    #[verifier::when_used_as_spec(spec_kind)]
    pub fn kind(&self) -> (k: ErrorKind)
        ensures
            k == self.spec_kind(),
    {
        match self {
            AppError::Transport(_) => ErrorKind::Transport,
            AppError::Conversion(_) => ErrorKind::Conversion,
            AppError::Extraction(_) => ErrorKind::Extraction,
            AppError::Validation(_) => ErrorKind::Validation,
            AppError::NotFound(_) => ErrorKind::NotFound,
            AppError::Internal(_) => ErrorKind::Internal,
        }
    }

    /// An error of class `kind` with the message `message`.
    pub fn new(kind: ErrorKind, message: String) -> (e: AppError)
        ensures
            e.spec_kind() == kind,
            e.detail() == message@,
    {
        match kind {
            ErrorKind::Transport => AppError::Transport(message),
            ErrorKind::Conversion => AppError::Conversion(message),
            ErrorKind::Extraction => AppError::Extraction(message),
            ErrorKind::Validation => AppError::Validation(message),
            ErrorKind::NotFound => AppError::NotFound(message),
            ErrorKind::Internal => AppError::Internal(message),
        }
    }

    /// The message, without the class.
    pub fn message(&self) -> (m: String)
        ensures
            m@ == self.detail(),
    {
        match self {
            AppError::Transport(m) => m.clone(),
            AppError::Conversion(m) => m.clone(),
            AppError::Extraction(m) => m.clone(),
            AppError::Validation(m) => m.clone(),
            AppError::NotFound(m) => m.clone(),
            AppError::Internal(m) => m.clone(),
        }
    }
}

/// A result as contracts speak of it: the view of what it holds.
pub open spec fn result_view<T: View>(r: Result<T, AppError>) -> Result<T::V, AppErrorView> {
    match r {
        Ok(value) => Ok(value@),
        Err(e) => Err(e@),
    }
}

/// An error of class `Extraction`.
pub open spec fn extraction_error(detail: Seq<char>) -> AppErrorView {
    AppErrorView { kind: ErrorKind::Extraction, detail }
}

} // verus!
