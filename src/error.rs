//! Error taxonomy of the quiz engine and the tagged result that carries it.
use vstd::prelude::*;

verus! {

/// The quiz with this id does not exist.
#[derive(Debug)]
pub struct QuizNotFoundError {
    pub quiz_id: u64,
}

/// The quiz window has not opened yet.
#[derive(Debug)]
pub struct QuizNotStartedError {
    pub quiz_id: u64,
}

/// The quiz window has closed.
#[derive(Debug)]
pub struct QuizEndedError {
    pub quiz_id: u64,
}

/// The user already holds an attempt for this quiz.
#[derive(Debug)]
pub struct AlreadySubmittedError {
    pub user: String,
    pub quiz_id: u64,
}

/// The caller is not authenticated.
#[derive(Debug)]
pub struct UnauthorizedError {
    pub message: String,
}

/// A quiz, question or option has the wrong shape.
#[derive(Debug)]
pub struct InvalidInputError {
    pub message: String,
}

/// A submitted answer list has the wrong shape.
#[derive(Debug)]
pub struct InvalidAnswerFormatError {
    pub message: String,
}

/// A timestamp string is not a plausible millisecond timestamp.
#[derive(Debug)]
pub struct InvalidTimestampFormatError {
    pub message: String,
}

/// The quiz window is not in the future, empty, or too long.
#[derive(Debug)]
pub struct InvalidTimeRangeError {
    pub message: String,
}

/// The persistence collaborator failed.
#[derive(Debug)]
pub struct StorageError {
    pub message: String,
}

/// Any other failure, such as the id counter running out.
#[derive(Debug)]
pub struct OtherError {
    pub message: String,
}

/// One variant per kind of failure.
#[derive(Debug)]
pub enum QuizError {
    QuizNotFound(QuizNotFoundError),
    QuizNotStarted(QuizNotStartedError),
    QuizEnded(QuizEndedError),
    AlreadySubmitted(AlreadySubmittedError),
    Unauthorized(UnauthorizedError),
    InvalidInput(InvalidInputError),
    InvalidAnswerFormat(InvalidAnswerFormatError),
    InvalidTimestampFormat(InvalidTimestampFormatError),
    InvalidTimeRange(InvalidTimeRangeError),
    StorageError(StorageError),
    Other(OtherError),
}

/// The mathematical value of a `QuizError`: its kind, key and message text.
pub enum Failure {
    QuizNotFound(u64),
    QuizNotStarted(u64),
    QuizEnded(u64),
    AlreadySubmitted(Seq<char>, u64),
    Unauthorized(Seq<char>),
    InvalidInput(Seq<char>),
    InvalidAnswerFormat(Seq<char>),
    InvalidTimestampFormat(Seq<char>),
    InvalidTimeRange(Seq<char>),
    StorageError(Seq<char>),
    Other(Seq<char>),
}

impl View for QuizError {
    type V = Failure;

    open spec fn view(&self) -> Failure {
        match self {
            QuizError::QuizNotFound(e) => Failure::QuizNotFound(e.quiz_id),
            QuizError::QuizNotStarted(e) => Failure::QuizNotStarted(e.quiz_id),
            QuizError::QuizEnded(e) => Failure::QuizEnded(e.quiz_id),
            QuizError::AlreadySubmitted(e) => Failure::AlreadySubmitted(e.user@, e.quiz_id),
            QuizError::Unauthorized(e) => Failure::Unauthorized(e.message@),
            QuizError::InvalidInput(e) => Failure::InvalidInput(e.message@),
            QuizError::InvalidAnswerFormat(e) => Failure::InvalidAnswerFormat(e.message@),
            QuizError::InvalidTimestampFormat(e) => Failure::InvalidTimestampFormat(e.message@),
            QuizError::InvalidTimeRange(e) => Failure::InvalidTimeRange(e.message@),
            QuizError::StorageError(e) => Failure::StorageError(e.message@),
            QuizError::Other(e) => Failure::Other(e.message@),
        }
    }
}

/// Outcome of an operation: exactly one of `data` and `error` is set.
#[derive(Debug)]
pub struct QuizResult<T> {
    pub data: Option<T>,
    pub error: Option<QuizError>,
}

impl<T> QuizResult<T> {
    /// The result succeeded with `v`.
    pub open spec fn is_success_with(&self, v: T) -> bool {
        self.data == Some(v) && self.error is None
    }

    /// The result failed with an error whose value is `f`.
    pub open spec fn is_failure_with(&self, f: Failure) -> bool {
        self.data is None && self.error is Some && self.error->0@ == f
    }

    pub fn success(data: T) -> (r: Self)
        ensures
            r.is_success_with(data),
    {
        QuizResult { data: Some(data), error: None }
    }

    pub fn from_error(error: QuizError) -> (r: Self)
        ensures
            r.data is None,
            r.error == Some(error),
    {
        QuizResult { data: None, error: Some(error) }
    }

    pub fn quiz_not_found(quiz_id: u64) -> (r: Self)
        ensures
            r.is_failure_with(Failure::QuizNotFound(quiz_id)),
    {
        QuizResult::from_error(QuizError::QuizNotFound(QuizNotFoundError { quiz_id }))
    }

    pub fn quiz_not_started(quiz_id: u64) -> (r: Self)
        ensures
            r.is_failure_with(Failure::QuizNotStarted(quiz_id)),
    {
        QuizResult::from_error(QuizError::QuizNotStarted(QuizNotStartedError { quiz_id }))
    }

    pub fn quiz_ended(quiz_id: u64) -> (r: Self)
        ensures
            r.is_failure_with(Failure::QuizEnded(quiz_id)),
    {
        QuizResult::from_error(QuizError::QuizEnded(QuizEndedError { quiz_id }))
    }

    pub fn already_submitted(user: String, quiz_id: u64) -> (r: Self)
        ensures
            r.is_failure_with(Failure::AlreadySubmitted(user@, quiz_id)),
    {
        QuizResult::from_error(QuizError::AlreadySubmitted(AlreadySubmittedError { user, quiz_id }))
    }

    pub fn unauthorized() -> (r: Self)
        ensures
            r.is_failure_with(Failure::Unauthorized(unauthorized_message())),
    {
        let message = String::from_str("User is not authenticated");
        QuizResult::from_error(QuizError::Unauthorized(UnauthorizedError { message }))
    }

    pub fn invalid_input(message: String) -> (r: Self)
        ensures
            r.is_failure_with(Failure::InvalidInput(message@)),
    {
        QuizResult::from_error(QuizError::InvalidInput(InvalidInputError { message }))
    }

    pub fn invalid_answer_format(message: String) -> (r: Self)
        ensures
            r.is_failure_with(Failure::InvalidAnswerFormat(message@)),
    {
        QuizResult::from_error(QuizError::InvalidAnswerFormat(InvalidAnswerFormatError { message }))
    }

    pub fn invalid_timestamp_format(message: String) -> (r: Self)
        ensures
            r.is_failure_with(Failure::InvalidTimestampFormat(message@)),
    {
        QuizResult::from_error(
            QuizError::InvalidTimestampFormat(InvalidTimestampFormatError { message }),
        )
    }

    pub fn invalid_time_range(message: String) -> (r: Self)
        ensures
            r.is_failure_with(Failure::InvalidTimeRange(message@)),
    {
        QuizResult::from_error(QuizError::InvalidTimeRange(InvalidTimeRangeError { message }))
    }

    pub fn storage_error(message: String) -> (r: Self)
        ensures
            r.is_failure_with(Failure::StorageError(message@)),
    {
        QuizResult::from_error(QuizError::StorageError(StorageError { message }))
    }

    pub fn other_error(message: String) -> (r: Self)
        ensures
            r.is_failure_with(Failure::Other(message@)),
    {
        QuizResult::from_error(QuizError::Other(OtherError { message }))
    }
}

/// Message carried by an `Unauthorized` error.
pub open spec fn unauthorized_message() -> Seq<char> {
    "User is not authenticated"@
}

} // verus!
