use quiz::error::{QuizError, QuizResult};

#[test]
fn success_sets_data_only() {
    let r: QuizResult<u64> = QuizResult::success(7);
    assert_eq!(r.data, Some(7));
    assert!(r.error.is_none());
}

#[test]
fn quiz_not_found_carries_id() {
    let r: QuizResult<()> = QuizResult::quiz_not_found(42);
    assert!(r.data.is_none());
    match r.error {
        Some(QuizError::QuizNotFound(e)) => assert_eq!(e.quiz_id, 42),
        other => panic!("unexpected {:?}", other),
    }
}

#[test]
fn window_errors_carry_id() {
    let r: QuizResult<()> = QuizResult::quiz_not_started(3);
    assert!(matches!(r.error, Some(QuizError::QuizNotStarted(ref e)) if e.quiz_id == 3));
    let r: QuizResult<()> = QuizResult::quiz_ended(4);
    assert!(matches!(r.error, Some(QuizError::QuizEnded(ref e)) if e.quiz_id == 4));
}

#[test]
fn already_submitted_carries_user_and_id() {
    let r: QuizResult<()> = QuizResult::already_submitted("alice".to_string(), 9);
    match r.error {
        Some(QuizError::AlreadySubmitted(e)) => {
            assert_eq!(e.user, "alice");
            assert_eq!(e.quiz_id, 9);
        }
        other => panic!("unexpected {:?}", other),
    }
}

#[test]
fn unauthorized_has_fixed_message() {
    let r: QuizResult<()> = QuizResult::unauthorized();
    match r.error {
        Some(QuizError::Unauthorized(e)) => assert_eq!(e.message, "User is not authenticated"),
        other => panic!("unexpected {:?}", other),
    }
}

#[test]
fn message_errors_keep_their_message() {
    let r: QuizResult<()> = QuizResult::invalid_input("a".to_string());
    assert!(matches!(r.error, Some(QuizError::InvalidInput(ref e)) if e.message == "a"));
    let r: QuizResult<()> = QuizResult::invalid_answer_format("b".to_string());
    assert!(matches!(r.error, Some(QuizError::InvalidAnswerFormat(ref e)) if e.message == "b"));
    let r: QuizResult<()> = QuizResult::invalid_timestamp_format("c".to_string());
    assert!(matches!(r.error, Some(QuizError::InvalidTimestampFormat(ref e)) if e.message == "c"));
    let r: QuizResult<()> = QuizResult::invalid_time_range("d".to_string());
    assert!(matches!(r.error, Some(QuizError::InvalidTimeRange(ref e)) if e.message == "d"));
    let r: QuizResult<()> = QuizResult::storage_error("e".to_string());
    assert!(matches!(r.error, Some(QuizError::StorageError(ref e)) if e.message == "e"));
    let r: QuizResult<()> = QuizResult::other_error("f".to_string());
    assert!(matches!(r.error, Some(QuizError::Other(ref e)) if e.message == "f"));
    assert!(r.data.is_none());
}

#[test]
fn from_error_wraps_any_error() {
    let e = QuizError::QuizEnded(quiz::error::QuizEndedError { quiz_id: 1 });
    let r: QuizResult<u8> = QuizResult::from_error(e);
    assert!(r.data.is_none());
    assert!(matches!(r.error, Some(QuizError::QuizEnded(_))));
}
