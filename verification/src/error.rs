//! The closed set of failures that the library reports.
use vstd::prelude::*;

verus! {

/// Why a manifest was refused.
#[derive(Clone, Copy, Debug, PartialEq, Eq)]
pub enum SchemaFailure {
    /// The text is not a JSON document.
    Syntax,
    /// The document is not an array.
    NotAnArray,
    /// The entry at this position has no `source_path` string.
    MissingSourcePath(usize),
    /// The entry at this position has neither an integer `group_label` nor a string
    /// `group_name`.
    MissingGroup(usize),
    /// The `group_label` of the entry at this position does not fit in 32 bits.
    LabelOutOfRange(usize),
}

/// What the worker reported about its own run.
#[derive(Clone, Copy, Debug, PartialEq, Eq)]
pub enum WorkerFailure {
    /// The worker found too few files to group.
    NotEnoughFiles,
    /// The worker exited with this non-zero code.
    NonZeroExit(i32),
}

/// Why a value handed to the library was refused.
#[derive(Clone, Debug, PartialEq, Eq)]
pub enum ValidationFailure {
    /// This group name leaves nothing but underscores once sanitized.
    GroupNameRejected(String),
    /// This text names neither of the two file operations.
    UnknownOperation(String),
}

/// Every failure that the library reports, by kind.
#[derive(Clone, Debug, PartialEq, Eq)]
pub enum Error {
    /// A path that the host should provide could not be resolved; the text says why.
    Environment(String),
    /// Nothing exists at this path.
    PathNotFound(String),
    /// This path exists and is not a directory.
    NotADirectory(String),
    /// Reading, creating, renaming or copying failed at `path`; `detail` is what the system
    /// reported.
    Io { path: String, detail: String },
    /// The manifest is malformed.
    Schema(SchemaFailure),
    /// The worker could not be started; the text says why.
    WorkerSpawn(String),
    /// The worker ran and reported a failure.
    WorkerReported(WorkerFailure),
    /// The worker's output ended before its termination was observed.
    CompletionLost,
    /// A value was refused before any work was done with it.
    Validation(ValidationFailure),
}

/// The mathematical value of a [`ValidationFailure`].
pub enum ValidationFailureView {
    GroupNameRejected(Seq<char>),
    UnknownOperation(Seq<char>),
}

/// The mathematical value of an [`Error`].
pub enum ErrorView {
    Environment(Seq<char>),
    PathNotFound(Seq<char>),
    NotADirectory(Seq<char>),
    Io { path: Seq<char>, detail: Seq<char> },
    Schema(SchemaFailure),
    WorkerSpawn(Seq<char>),
    WorkerReported(WorkerFailure),
    CompletionLost,
    Validation(ValidationFailureView),
}

impl View for ValidationFailure {
    type V = ValidationFailureView;

    open spec fn view(&self) -> ValidationFailureView {
        match *self {
            ValidationFailure::GroupNameRejected(name) => ValidationFailureView::GroupNameRejected(
                name@,
            ),
            ValidationFailure::UnknownOperation(text) => ValidationFailureView::UnknownOperation(
                text@,
            ),
        }
    }
}

impl View for Error {
    type V = ErrorView;

    open spec fn view(&self) -> ErrorView {
        match *self {
            Error::Environment(detail) => ErrorView::Environment(detail@),
            Error::PathNotFound(path) => ErrorView::PathNotFound(path@),
            Error::NotADirectory(path) => ErrorView::NotADirectory(path@),
            Error::Io { path, detail } => ErrorView::Io { path: path@, detail: detail@ },
            Error::Schema(failure) => ErrorView::Schema(failure),
            Error::WorkerSpawn(detail) => ErrorView::WorkerSpawn(detail@),
            Error::WorkerReported(failure) => ErrorView::WorkerReported(failure),
            Error::CompletionLost => ErrorView::CompletionLost,
            Error::Validation(failure) => ErrorView::Validation(failure@),
        }
    }
}

impl Error {
    /// A second value for the same failure.
    pub fn duplicate(&self) -> (copy: Error)
        ensures
            copy@ == self@,
    {
        match self {
            Error::Environment(detail) => Error::Environment(detail.clone()),
            Error::PathNotFound(path) => Error::PathNotFound(path.clone()),
            Error::NotADirectory(path) => Error::NotADirectory(path.clone()),
            Error::Io { path, detail } => Error::Io { path: path.clone(), detail: detail.clone() },
            Error::Schema(failure) => Error::Schema(*failure),
            Error::WorkerSpawn(detail) => Error::WorkerSpawn(detail.clone()),
            Error::WorkerReported(failure) => Error::WorkerReported(*failure),
            Error::CompletionLost => Error::CompletionLost,
            Error::Validation(ValidationFailure::GroupNameRejected(name)) => Error::Validation(
                ValidationFailure::GroupNameRejected(name.clone()),
            ),
            Error::Validation(ValidationFailure::UnknownOperation(text)) => Error::Validation(
                ValidationFailure::UnknownOperation(text.clone()),
            ),
        }
    }
}

/// The mathematical value of the result of an operation that yields nothing on success.
pub open spec fn outcome_view(outcome: Result<(), Error>) -> Result<(), ErrorView> {
    match outcome {
        Ok(()) => Ok(()),
        Err(error) => Err(error@),
    }
}

/// The mathematical value of the result of an operation that yields a text on success.
pub open spec fn text_outcome_view(outcome: Result<String, Error>) -> Result<Seq<char>, ErrorView> {
    match outcome {
        Ok(text) => Ok(text@),
        Err(error) => Err(error@),
    }
}

} // verus!
