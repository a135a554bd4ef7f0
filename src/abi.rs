//! Operations, queries and the plain values they carry.
use vstd::prelude::*;

verus! {

/// Marker for the application's interface: `Operation` in, `QuizResult` out.
pub struct QuizAbi;

/// What an author sends to publish a quiz.
#[derive(Debug)]
pub struct CreateQuizParams {
    pub title: String,
    pub description: String,
    pub questions: Vec<QuestionParams>,
    /// Advisory time limit, in seconds.
    pub time_limit: u64,
    /// Opening time: decimal milliseconds since the epoch.
    pub start_time: String,
    /// Closing time: decimal milliseconds since the epoch.
    pub end_time: String,
    pub nick_name: String,
}

/// One question as the author writes it.
#[derive(Debug, Clone)]
pub struct QuestionParams {
    pub text: String,
    pub options: Vec<String>,
    pub correct_options: Vec<u32>,
    pub points: u32,
}

/// A participant's answers: one list of chosen option indices per question.
#[derive(Debug)]
pub struct SubmitAnswersParams {
    pub quiz_id: u64,
    pub answers: Vec<Vec<u32>>,
    /// Elapsed time reported by the client, in milliseconds.
    pub time_taken: u64,
    pub nick_name: String,
}

/// One row of a leaderboard.
#[derive(Debug, Clone)]
pub struct LeaderboardEntry {
    pub user: String,
    pub score: u32,
    pub time_taken: u64,
}

/// The mutating operations.
#[derive(Debug)]
pub enum Operation {
    CreateQuiz(CreateQuizParams),
    SubmitAnswers(SubmitAnswersParams),
}

/// The read-only queries.
#[derive(Debug)]
pub enum Query {
    GetQuizSets,
    GetQuizSet(u64),
    GetUserAttempts(String),
    GetLeaderboard,
    GetQuizLeaderboard(u64),
    GetUserParticipations(String),
    GetUserCreatedQuizzes(String),
    GetUserParticipatedQuizzes(String),
}

/// An attempt as queries show it; times are decimal microseconds.
#[derive(Debug)]
pub struct UserAttemptView {
    pub quiz_id: u64,
    pub user: String,
    pub answers: Vec<Vec<u32>>,
    pub score: u32,
    pub time_taken: u64,
    pub completed_at: String,
}

/// An attempt together with the quiz it belongs to.
#[derive(Debug)]
pub struct QuizAttempt {
    pub quiz_id: u64,
    pub attempt: UserAttemptView,
}

/// A quiz as queries show it, without its answers; times are decimal
/// microseconds.
#[derive(Debug)]
pub struct QuizSetView {
    pub id: u64,
    pub title: String,
    pub description: String,
    pub creator: String,
    pub questions: Vec<QuestionView>,
    pub start_time: String,
    pub end_time: String,
    pub created_at: String,
}

/// A question as queries show it, without its correct options.
#[derive(Debug)]
pub struct QuestionView {
    pub id: u32,
    pub text: String,
    pub options: Vec<String>,
    pub points: u32,
}

/// The answer to a `Query`.
#[derive(Debug)]
pub enum QueryResponse {
    QuizSets(Vec<QuizSetView>),
    QuizSet(Option<QuizSetView>),
    UserAttempts(Vec<QuizAttempt>),
    Leaderboard(Vec<UserAttemptView>),
    QuizLeaderboard(Vec<UserAttemptView>),
    UserParticipations(Vec<u64>),
    UserCreatedQuizzes(Vec<QuizSetView>),
    UserParticipatedQuizzes(Vec<QuizSetView>),
}

} // verus!
