use quiz::abi::{CreateQuizParams, LeaderboardEntry, Operation, QuestionParams, SubmitAnswersParams};
use quiz::error::QuizError;
use quiz::grading::{distinct_options, find_out_of_range, grade, same_options};
use quiz::leaderboard::rank;
use quiz::state::{Question, QuizState};

const NOW: u64 = 1_700_000_000_000_000;
const START: u64 = 1_700_000_001_000_000;
const END: u64 = 1_700_000_010_000_000;

fn question(text: &str, options: &[&str], correct: &[u32], points: u32) -> QuestionParams {
    QuestionParams {
        text: text.to_string(),
        options: options.iter().map(|o| o.to_string()).collect(),
        correct_options: correct.to_vec(),
        points,
    }
}

fn stored(options: usize, correct: &[u32], points: u32) -> Question {
    Question {
        id: 0,
        text: "q".to_string(),
        options: (0..options).map(|i| format!("o{}", i)).collect(),
        correct_options: correct.to_vec(),
        points,
    }
}

/// A state holding quiz 1: Q1 correct {0} for 5 points, Q2 correct {1,2}
/// for 10 points, open over [now + 1000 ms, now + 10000 ms].
fn two_question_quiz() -> QuizState {
    let mut s = QuizState::new();
    let r = s.create_quiz(
        CreateQuizParams {
            title: "t".to_string(),
            description: "d".to_string(),
            questions: vec![
                question("Q1", &["a", "b", "c"], &[0], 5),
                question("Q2", &["a", "b", "c"], &[1, 2], 10),
            ],
            time_limit: 30,
            start_time: "1700000001000".to_string(),
            end_time: "1700000010000".to_string(),
            nick_name: "author".to_string(),
        },
        true,
        NOW,
    );
    assert_eq!(r.data, Some(1));
    s
}

fn submit(user: &str, quiz_id: u64, answers: Vec<Vec<u32>>, time_taken: u64) -> SubmitAnswersParams {
    SubmitAnswersParams { quiz_id, answers, time_taken, nick_name: user.to_string() }
}

fn answer_message(e: Option<QuizError>) -> String {
    match e {
        Some(QuizError::InvalidAnswerFormat(e)) => e.message,
        other => panic!("expected an answer format error, got {:?}", other),
    }
}

#[test]
fn end_to_end_two_questions() {
    let mut s = two_question_quiz();
    let r = s.submit_answers(submit("alice", 1, vec![vec![0], vec![1, 2]], 4000), START + 5);
    assert!(r.error.is_none());
    assert_eq!(r.data, Some(()));
    assert_eq!(s.user_attempts.len(), 1);
    assert_eq!(s.user_attempts[0].score, 15);
    assert_eq!(s.user_attempts[0].completed_at, START + 5);
    assert_eq!(s.user_attempts[0].time_taken, 4000);

    let r = s.submit_answers(submit("alice", 1, vec![vec![1], vec![0]], 10), START + 6);
    match r.error {
        Some(QuizError::AlreadySubmitted(e)) => {
            assert_eq!(e.user, "alice");
            assert_eq!(e.quiz_id, 1);
        }
        other => panic!("unexpected {:?}", other),
    }
    assert_eq!(s.user_attempts.len(), 1);
    assert_eq!(s.user_attempts[0].score, 15);

    let r = s.submit_answers(submit("bob", 1, vec![vec![0], vec![1, 2]], 10), END + 1);
    assert!(matches!(r.error, Some(QuizError::QuizEnded(ref e)) if e.quiz_id == 1));
    assert_eq!(s.user_attempts.len(), 1);
}

#[test]
fn window_bounds_are_inclusive() {
    let mut s = two_question_quiz();
    let r = s.submit_answers(submit("early", 1, vec![vec![0], vec![1]], 1), START - 1);
    assert!(matches!(r.error, Some(QuizError::QuizNotStarted(ref e)) if e.quiz_id == 1));
    assert!(s.user_attempts.is_empty());
    let r = s.submit_answers(submit("first", 1, vec![vec![0], vec![1]], 1), START);
    assert!(r.error.is_none());
    let r = s.submit_answers(submit("last", 1, vec![vec![0], vec![1]], 1), END);
    assert!(r.error.is_none());
    let r = s.submit_answers(submit("late", 1, vec![vec![0], vec![1]], 1), END + 1);
    assert!(matches!(r.error, Some(QuizError::QuizEnded(_))));
    assert_eq!(s.user_attempts.len(), 2);
}

#[test]
fn unknown_quiz_is_not_found() {
    let mut s = two_question_quiz();
    let r = s.submit_answers(submit("a", 2, vec![], 1), START);
    assert!(matches!(r.error, Some(QuizError::QuizNotFound(ref e)) if e.quiz_id == 2));
    let r = s.submit_answers(submit("a", 0, vec![], 1), START);
    assert!(matches!(r.error, Some(QuizError::QuizNotFound(ref e)) if e.quiz_id == 0));
}

#[test]
fn answer_sheet_shape_is_checked() {
    let mut s = two_question_quiz();
    let r = s.submit_answers(submit("a", 1, vec![vec![0]], 1), START);
    assert_eq!(answer_message(r.error), "Answer count mismatch: expected 2 answers, got 1");
    let r = s.submit_answers(submit("a", 1, vec![vec![0], vec![1, 1]], 1), START);
    assert_eq!(answer_message(r.error), "Question 2 has duplicate answers");
    let r = s.submit_answers(submit("a", 1, vec![vec![0, 3], vec![1]], 1), START);
    assert_eq!(answer_message(r.error), "Question 1 has invalid answer index: 3");
    assert!(s.user_attempts.is_empty());
    let r = s.submit_answers(submit("a", 1, vec![vec![], vec![]], 1), START);
    assert!(r.error.is_none());
    assert_eq!(s.user_attempts[0].score, 0);
}

#[test]
fn same_user_may_answer_other_quizzes() {
    let mut s = two_question_quiz();
    s.create_quiz(
        CreateQuizParams {
            title: "t2".to_string(),
            description: String::new(),
            questions: vec![question("Q", &["a", "b"], &[1], 3)],
            time_limit: 0,
            start_time: "1700000001000".to_string(),
            end_time: "1700000010000".to_string(),
            nick_name: "author".to_string(),
        },
        true,
        NOW,
    );
    assert!(s.submit_answers(submit("alice", 1, vec![vec![0], vec![2, 1]], 9), START).error.is_none());
    assert!(s.submit_answers(submit("alice", 2, vec![vec![1]], 7), START).error.is_none());
    assert!(s.submit_answers(submit("bob", 2, vec![vec![0]], 7), START).error.is_none());
    assert_eq!(s.user_participations(&"alice".to_string()), vec![1, 2]);
    assert_eq!(s.user_participations(&"bob".to_string()), vec![2]);
    assert!(s.user_participations(&"carol".to_string()).is_empty());
}

#[test]
fn exact_set_grading() {
    let q = stored(3, &[0, 2], 7);
    assert!(same_options(&vec![2, 0], &q.correct_options));
    assert!(!same_options(&vec![0], &q.correct_options));
    assert!(!same_options(&vec![0, 2, 1], &q.correct_options));
    let qs = vec![q];
    assert_eq!(grade(&qs, &vec![vec![2, 0]]), 7);
    assert_eq!(grade(&qs, &vec![vec![0]]), 0);
    assert_eq!(grade(&qs, &vec![vec![0, 2, 1]]), 0);
}

#[test]
fn grading_adds_points_and_wraps() {
    let qs = vec![stored(2, &[0], u32::MAX), stored(2, &[1], 2)];
    assert_eq!(grade(&qs, &vec![vec![0], vec![1]]), 1);
    assert_eq!(grade(&qs, &vec![vec![1], vec![1]]), 2);
}

#[test]
fn out_of_range_correct_option_is_unscoreable() {
    let qs = vec![stored(2, &[5], 4)];
    assert_eq!(grade(&qs, &vec![vec![0]]), 0);
    assert_eq!(grade(&qs, &vec![vec![1]]), 0);
}

#[test]
fn choice_checks() {
    assert!(distinct_options(&vec![]));
    assert!(distinct_options(&vec![3, 1, 2]));
    assert!(!distinct_options(&vec![3, 1, 3]));
    assert_eq!(find_out_of_range(&vec![0, 1, 4, 9], 3), Some(2));
    assert_eq!(find_out_of_range(&vec![0, 2], 3), None);
}

fn entry(user: &str, score: u32, time_taken: u64) -> LeaderboardEntry {
    LeaderboardEntry { user: user.to_string(), score, time_taken }
}

fn users(v: &[LeaderboardEntry]) -> Vec<String> {
    v.iter().map(|e| e.user.clone()).collect()
}

#[test]
fn ranking_orders_score_then_time() {
    let r = rank(vec![entry("A", 10, 5000), entry("B", 10, 3000), entry("C", 7, 1000)]);
    assert_eq!(users(&r), vec!["B", "A", "C"]);
}

#[test]
fn ranking_keeps_order_of_full_ties() {
    let r = rank(vec![entry("X", 5, 10), entry("Y", 5, 10), entry("Z", 6, 99), entry("W", 5, 10)]);
    assert_eq!(users(&r), vec!["Z", "X", "Y", "W"]);
    assert!(rank(vec![]).is_empty());
}

#[test]
fn quiz_leaderboard_from_attempts() {
    let mut s = QuizState::new();
    s.create_quiz(
        CreateQuizParams {
            title: "t".to_string(),
            description: "d".to_string(),
            questions: vec![
                question("Q1", &["a", "b"], &[0], 3),
                question("Q2", &["a", "b"], &[1], 7),
            ],
            time_limit: 30,
            start_time: "1700000001000".to_string(),
            end_time: "1700000010000".to_string(),
            nick_name: "author".to_string(),
        },
        true,
        NOW,
    );
    s.submit_answers(submit("A", 1, vec![vec![0], vec![1]], 5000), START);
    s.submit_answers(submit("B", 1, vec![vec![0], vec![1]], 3000), START);
    s.submit_answers(submit("C", 1, vec![vec![1], vec![1]], 1000), START);
    let board = s.quiz_leaderboard(1);
    assert_eq!(users(&board), vec!["B", "A", "C"]);
    assert_eq!(board[0].score, 10);
    assert_eq!(board[2].score, 7);
    assert!(s.quiz_leaderboard(2).is_empty());
}

#[test]
fn global_leaderboard_sums_and_keeps_least_time() {
    let mut s = two_question_quiz();
    s.create_quiz(
        CreateQuizParams {
            title: "t2".to_string(),
            description: String::new(),
            questions: vec![question("Q", &["a", "b"], &[1], 3)],
            time_limit: 0,
            start_time: "1700000001000".to_string(),
            end_time: "1700000010000".to_string(),
            nick_name: "author".to_string(),
        },
        true,
        NOW,
    );
    s.submit_answers(submit("alice", 1, vec![vec![0], vec![]], 900), START);
    s.submit_answers(submit("bob", 1, vec![vec![0], vec![1, 2]], 500), START);
    s.submit_answers(submit("alice", 2, vec![vec![1]], 300), START);
    s.submit_answers(submit("carol", 2, vec![vec![1]], 100), START);
    let totals = s.user_totals();
    assert_eq!(users(&totals), vec!["alice", "bob", "carol"]);
    assert_eq!(totals[0].score, 8);
    assert_eq!(totals[0].time_taken, 300);
    let board = s.global_leaderboard();
    assert_eq!(users(&board), vec!["bob", "alice", "carol"]);
    assert_eq!(board[0].score, 15);
}

#[test]
fn global_totals_saturate() {
    let mut s = QuizState::new();
    for _ in 0..2 {
        s.create_quiz(
            CreateQuizParams {
                title: "big".to_string(),
                description: String::new(),
                questions: vec![question("Q", &["a", "b"], &[0], u32::MAX - 1)],
                time_limit: 0,
                start_time: "1700000001000".to_string(),
                end_time: "1700000010000".to_string(),
                nick_name: "author".to_string(),
            },
            true,
            NOW,
        );
    }
    s.submit_answers(submit("max", 1, vec![vec![0]], 1), START);
    s.submit_answers(submit("max", 2, vec![vec![0]], 1), START);
    assert_eq!(s.global_leaderboard()[0].score, u32::MAX);
}

#[test]
fn operations_dispatch() {
    let mut s = QuizState::new();
    let r = s.execute_operation(
        Operation::CreateQuiz(CreateQuizParams {
            title: "t".to_string(),
            description: "d".to_string(),
            questions: vec![question("Q", &["a", "b"], &[1], 4)],
            time_limit: 0,
            start_time: "1700000001000".to_string(),
            end_time: "1700000010000".to_string(),
            nick_name: "n".to_string(),
        }),
        true,
        NOW,
    );
    assert_eq!(r.data, Some(Some(1)));
    let r = s.execute_operation(Operation::SubmitAnswers(submit("u", 1, vec![vec![1]], 3)), true, START);
    assert_eq!(r.data, Some(None));
    assert_eq!(s.user_attempts[0].score, 4);
    let r = s.execute_operation(Operation::SubmitAnswers(submit("u", 1, vec![vec![1]], 3)), true, START);
    assert!(matches!(r.error, Some(QuizError::AlreadySubmitted(_))));
}

#[test]
fn cached_leaderboard_follows_submissions() {
    let mut s = two_question_quiz();
    assert_eq!(s.leaderboards.len(), 1);
    assert!(s.leaderboards[0].is_empty());
    s.submit_answers(submit("A", 1, vec![vec![0], vec![]], 5000), START);
    s.submit_answers(submit("B", 1, vec![vec![0], vec![1, 2]], 3000), START);
    s.submit_answers(submit("C", 1, vec![vec![0], vec![2]], 1000), START);
    let cached: Vec<(String, u32, u64)> =
        s.leaderboards[0].iter().map(|e| (e.user.clone(), e.score, e.time_taken)).collect();
    assert_eq!(
        cached,
        vec![("B".to_string(), 15, 0), ("A".to_string(), 5, 0), ("C".to_string(), 5, 0)]
    );
    let r = s.submit_answers(submit("A", 1, vec![vec![0], vec![1, 2]], 1), START);
    assert!(r.error.is_some());
    assert_eq!(s.leaderboards[0].len(), 3);
}
