//! A quiz engine: quiz creation with validated time windows, one graded
//! submission per user and quiz, and leaderboards ranked from the attempts.
pub mod abi;
pub mod catalog;
pub mod error;
pub mod grading;
pub mod leaderboard;
pub mod state;
pub mod submission;
pub mod text;

pub use error::{
    AlreadySubmittedError, Failure, InvalidAnswerFormatError, InvalidInputError,
    InvalidTimeRangeError, InvalidTimestampFormatError, OtherError, QuizEndedError, QuizError,
    QuizNotFoundError, QuizNotStartedError, QuizResult, StorageError, UnauthorizedError,
};
pub use abi::{
    CreateQuizParams, LeaderboardEntry, Operation, Query, QueryResponse, QuestionParams,
    QuestionView, QuizAbi, QuizAttempt, QuizSetView, SubmitAnswersParams, UserAttemptView,
};
pub use state::{Question, QuizSet, QuizState, UserAttempt};
