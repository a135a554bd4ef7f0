//! Quiz creation: timestamp reading, window and shape validation, and id
//! allocation.
use vstd::prelude::*;
use vstd::string::*;

use crate::abi::{CreateQuizParams, QuestionParams};
use crate::error::{
    Failure, InvalidInputError, InvalidTimestampFormatError, QuizError, QuizResult, unauthorized_message,
};
use crate::state::{Question, QuizSet, QuizState, question_from, quiz_from};
use crate::text::{blank, decimal, decimal_len, is_blank, message_with_number, parse_decimal_u64, parse_u64};

verus! {

/// Longest allowed quiz window: 100 years of 365 days, in microseconds.
pub const MAX_WINDOW_MICROS: u64 = 3_153_600_000_000_000;

/// Fewest and most decimal digits of a plausible millisecond timestamp.
pub const MIN_TIMESTAMP_DIGITS: usize = 10;
pub const MAX_TIMESTAMP_DIGITS: usize = 14;

/// The text that names a timestamp in messages.
pub open spec fn time_name(is_start: bool) -> Seq<char> {
    if is_start { "Start time"@ } else { "End time"@ }
}

/// Reads a decimal millisecond timestamp and gives it in microseconds.
pub open spec fn read_timestamp(s: Seq<char>, is_start: bool) -> Result<u64, Failure> {
    match parse_u64(s) {
        None => Err(Failure::InvalidTimestampFormat(time_name(is_start) + " is not a valid number"@)),
        Some(ms) => {
            let digits = decimal(ms as nat).len();
            if digits < MIN_TIMESTAMP_DIGITS || digits > MAX_TIMESTAMP_DIGITS {
                Err(Failure::InvalidTimestampFormat(
                    time_name(is_start) + " seems invalid (should be a millisecond timestamp)"@,
                ))
            } else if ms * 1000 > u64::MAX {
                Err(Failure::InvalidTimestampFormat(
                    time_name(is_start) + " overflow when converting to microseconds"@,
                ))
            } else {
                Ok((ms * 1000) as u64)
            }
        },
    }
}

/// The message about question `i` (zero-based; messages count from 1).
pub open spec fn question_message(i: int, tail: Seq<char>) -> Seq<char> {
    "Question "@ + decimal((i + 1) as nat) + tail
}

/// The first blank option at or after position `j`.
pub open spec fn first_blank_option(options: Seq<String>, j: int) -> Option<int>
    decreases options.len() - j,
{
    if j < 0 || j >= options.len() {
        None
    } else if is_blank(options[j]@) {
        Some(j)
    } else {
        first_blank_option(options, j + 1)
    }
}

/// What is wrong with the `i`-th question, checked in order: blank text,
/// fewer than two options, no correct option, a blank option.
pub open spec fn question_problem(q: QuestionParams, i: int) -> Option<Failure> {
    if is_blank(q.text@) {
        Some(Failure::InvalidInput(question_message(i, " text cannot be empty"@)))
    } else if q.options@.len() < 2 {
        Some(Failure::InvalidInput(question_message(i, " must have at least 2 options"@)))
    } else if q.correct_options@.len() == 0 {
        Some(Failure::InvalidInput(question_message(i, " must have at least one correct option"@)))
    } else {
        match first_blank_option(q.options@, 0) {
            Some(j) => Some(Failure::InvalidInput(
                question_message(i, " option "@ + decimal((j + 1) as nat) + " text cannot be empty"@),
            )),
            None => None,
        }
    }
}

/// The problem of the first faulty question at or after position `i`.
pub open spec fn first_question_problem(qs: Seq<QuestionParams>, i: int) -> Option<Failure>
    decreases qs.len() - i,
{
    if i < 0 || i >= qs.len() {
        None
    } else {
        match question_problem(qs[i], i) {
            Some(f) => Some(f),
            None => first_question_problem(qs, i + 1),
        }
    }
}

/// Why a creation request is refused, the first failing rule in order:
/// the timestamps, the window, the caller, then the questions.
pub open spec fn create_failure(p: CreateQuizParams, authenticated: bool, now: u64) -> Option<Failure> {
    match read_timestamp(p.start_time@, true) {
        Err(f) => Some(f),
        Ok(start) => match read_timestamp(p.end_time@, false) {
            Err(f) => Some(f),
            Ok(end) => {
                if start <= now {
                    Some(Failure::InvalidTimeRange("Start time must be in the future"@))
                } else if end <= start {
                    Some(Failure::InvalidTimeRange("End time must be after start time"@))
                } else if end - start > MAX_WINDOW_MICROS {
                    Some(Failure::InvalidTimeRange("Time range is too long (maximum 100 years)"@))
                } else if !authenticated {
                    Some(Failure::Unauthorized(unauthorized_message()))
                } else {
                    first_question_problem(p.questions@, 0)
                }
            },
        },
    }
}

/// The window of a request that passes the timestamp rules.
pub open spec fn window_of(p: CreateQuizParams) -> (u64, u64) {
    (read_timestamp(p.start_time@, true)->Ok_0, read_timestamp(p.end_time@, false)->Ok_0)
}

/// Whether `after` is `before` with the quiz that `p` describes stored
/// under the next id, an empty cached leaderboard beside it, and the
/// counter advanced by one.
pub open spec fn created(before: QuizState, after: QuizState, p: CreateQuizParams, now: u64) -> bool {
    &&& after.next_quiz_id == before.next_quiz_id + 1
    &&& after.quiz_sets@.len() == before.quiz_sets@.len() + 1
    &&& after.quiz_sets@.drop_last() == before.quiz_sets@
    &&& quiz_from(after.quiz_sets@.last(), p, before.next_quiz_id, window_of(p).0, window_of(p).1, now)
    &&& after.leaderboards@.drop_last() == before.leaderboards@
    &&& after.leaderboards@.last()@.len() == 0
    &&& after.user_attempts == before.user_attempts
}

/// Message of the error that ends the id sequence.
pub open spec fn id_overflow_message() -> Seq<char> {
    "Quiz ID overflow"@
}

fn time_text(is_start: bool, tail: &str) -> (r: String)
    ensures
        r@ == time_name(is_start) + tail@,
{
    let mut m = if is_start { String::from_str("Start time") } else { String::from_str("End time") };
    m.append(tail);
    m
}

/// Reads a decimal millisecond timestamp into microseconds.
pub fn parse_timestamp(s: &String, is_start: bool) -> (r: Result<u64, QuizError>)
    ensures
        match read_timestamp(s@, is_start) {
            Ok(t) => r == Ok::<u64, QuizError>(t),
            Err(f) => r is Err && r->Err_0@ == f,
        },
{
    let ms = match parse_decimal_u64(s.as_str()) {
        Some(ms) => ms,
        None => {
            let message = time_text(is_start, " is not a valid number");
            return Err(QuizError::InvalidTimestampFormat(InvalidTimestampFormatError { message }));
        },
    };
    let digits = decimal_len(ms);
    if digits < MIN_TIMESTAMP_DIGITS || digits > MAX_TIMESTAMP_DIGITS {
        let message = time_text(is_start, " seems invalid (should be a millisecond timestamp)");
        return Err(QuizError::InvalidTimestampFormat(InvalidTimestampFormatError { message }));
    }
    match ms.checked_mul(1000) {
        Some(micros) => Ok(micros),
        None => {
            let message = time_text(is_start, " overflow when converting to microseconds");
            Err(QuizError::InvalidTimestampFormat(InvalidTimestampFormatError { message }))
        },
    }
}

/// The first blank option of `options`, if any.
fn find_blank_option(options: &Vec<String>) -> (r: Option<usize>)
    ensures
        r is None <==> first_blank_option(options@, 0) is None,
        r is Some ==> first_blank_option(options@, 0) == Some(r->0 as int) && r->0 < options@.len(),
{
    let n = options.len();
    let mut j: usize = 0;
    while j < n
        invariant
            j <= n,
            n == options@.len(),
            first_blank_option(options@, 0) == first_blank_option(options@, j as int),
        decreases n - j,
    {
        if blank(options[j].as_str()) {
            return Some(j);
        }
        j = j + 1;
    }
    None
}

/// Checks one question against the shape rules.
pub fn check_question(q: &QuestionParams, i: usize) -> (r: Option<QuizError>)
    requires
        i < usize::MAX,
    ensures
        match question_problem(*q, i as int) {
            Some(f) => r is Some && r->0@ == f,
            None => r is None,
        },
{
    let number = (i + 1) as u64;
    if blank(q.text.as_str()) {
        let message = message_with_number("Question ", number, " text cannot be empty");
        return Some(QuizError::InvalidInput(InvalidInputError { message }));
    }
    if q.options.len() < 2 {
        let message = message_with_number("Question ", number, " must have at least 2 options");
        return Some(QuizError::InvalidInput(InvalidInputError { message }));
    }
    if q.correct_options.len() == 0 {
        let message = message_with_number("Question ", number, " must have at least one correct option");
        return Some(QuizError::InvalidInput(InvalidInputError { message }));
    }
    match find_blank_option(&q.options) {
        Some(j) => {
            let mut message = message_with_number("Question ", number, " option ");
            let rest = message_with_number("", (j + 1) as u64, " text cannot be empty");
            message.append(rest.as_str());
            proof {
                reveal_strlit("");
                assert(""@ + decimal((j + 1) as nat) + " text cannot be empty"@
                    =~= decimal((j + 1) as nat) + " text cannot be empty"@);
                assert(message@ =~= question_message(i as int,
                    " option "@ + decimal((j + 1) as nat) + " text cannot be empty"@));
            }
            Some(QuizError::InvalidInput(InvalidInputError { message }))
        },
        None => None,
    }
}

/// Turns the requested questions into stored ones, numbered by position.
fn build_questions(params: Vec<QuestionParams>) -> (r: Vec<Question>)
    ensures
        r@.len() == params@.len(),
        forall|k: int| 0 <= k < r@.len() ==> #[trigger] r@[k] == question_from(params@[k], k),
{
    let ghost all = params@;
    let mut rest = params;
    let mut out: Vec<Question> = Vec::new();
    while rest.len() > 0
        invariant
            rest@ == all.take(rest@.len() as int),
            rest@.len() <= all.len(),
            out@.len() == all.len() - rest@.len(),
            forall|k: int| 0 <= k < out@.len()
                ==> #[trigger] out@[k] == question_from(all[rest@.len() + k], rest@.len() + k),
        decreases rest@.len(),
    {
        let q = rest.pop().unwrap();
        let pos = rest.len();
        let stored = Question {
            id: pos as u32,
            text: q.text,
            options: q.options,
            correct_options: q.correct_options,
            points: q.points,
        };
        let ghost prev = out@;
        out.insert(0, stored);
        assert(rest@ =~= all.take(rest@.len() as int));
        assert forall|k: int| 0 <= k < out@.len()
            implies #[trigger] out@[k] == question_from(all[rest@.len() + k], rest@.len() + k) by {
            if k > 0 {
                assert(out@[k] == prev[k - 1]);
            }
        }
    }
    out
}

impl QuizState {
    /// Validates a creation request and, where it passes, stores the quiz
    /// under the current counter value and advances the counter. A refused
    /// request leaves the state as it was.
    pub fn create_quiz(&mut self, params: CreateQuizParams, authenticated: bool, now: u64) -> (r: QuizResult<u64>)
        requires
            old(self).wf(),
        ensures
            final(self).wf(),
            match create_failure(params, authenticated, now) {
                Some(f) => r.is_failure_with(f) && *final(self) == *old(self),
                None => if old(self).next_quiz_id == u64::MAX {
                    r.is_failure_with(Failure::Other(id_overflow_message())) && *final(self) == *old(self)
                } else {
                    &&& r.is_success_with(old(self).next_quiz_id)
                    &&& created(*old(self), *final(self), params, now)
                },
            },
    {
        let start = match parse_timestamp(&params.start_time, true) {
            Ok(t) => t,
            Err(e) => return QuizResult::from_error(e),
        };
        let end = match parse_timestamp(&params.end_time, false) {
            Ok(t) => t,
            Err(e) => return QuizResult::from_error(e),
        };
        if start <= now {
            return QuizResult::invalid_time_range(String::from_str("Start time must be in the future"));
        }
        if end <= start {
            return QuizResult::invalid_time_range(String::from_str("End time must be after start time"));
        }
        if end - start > MAX_WINDOW_MICROS {
            return QuizResult::invalid_time_range(String::from_str("Time range is too long (maximum 100 years)"));
        }
        if !authenticated {
            return QuizResult::unauthorized();
        }
        let n = params.questions.len();
        let mut i: usize = 0;
        while i < n
            invariant
                i <= n,
                n == params.questions@.len(),
                first_question_problem(params.questions@, 0) == first_question_problem(params.questions@, i as int),
                create_failure(params, authenticated, now) == first_question_problem(params.questions@, 0),
                window_of(params) == (start, end),
                *self == *old(self),
                old(self).wf(),
            decreases n - i,
        {
            match check_question(&params.questions[i], i) {
                Some(e) => return QuizResult::from_error(e),
                None => {},
            }
            i = i + 1;
        }
        let quiz_id = self.next_quiz_id;
        if quiz_id == u64::MAX {
            return QuizResult::other_error(String::from_str("Quiz ID overflow"));
        }
        let ghost p = params;
        let questions = build_questions(params.questions);
        let quiz = QuizSet {
            id: quiz_id,
            title: params.title,
            description: params.description,
            creator: params.nick_name,
            questions,
            time_limit: params.time_limit,
            start_time: start,
            end_time: end,
            created_at: now,
        };
        self.quiz_sets.push(quiz);
        self.leaderboards.push(Vec::new());
        self.next_quiz_id = quiz_id + 1;
        proof {
            assert(final(self).quiz_sets@.drop_last() =~= old(self).quiz_sets@);
            assert(final(self).leaderboards@.drop_last() =~= old(self).leaderboards@);
        }
        QuizResult::success(quiz_id)
    }
}

} // verus!

verus! {

/// Whether the window of a request with readable timestamps does not open
/// after `now`, is empty, or is longer than the maximum.
pub open spec fn breaks_window(p: CreateQuizParams, now: u64) -> bool {
    match (read_timestamp(p.start_time@, true), read_timestamp(p.end_time@, false)) {
        (Ok(start), Ok(end)) => start <= now || end <= start || end - start > MAX_WINDOW_MICROS,
        _ => false,
    }
}

/// Whether a question has blank text, fewer than two options, a blank
/// option, or no correct option.
pub open spec fn faulty_question(q: QuestionParams) -> bool {
    ||| is_blank(q.text@)
    ||| q.options@.len() < 2
    ||| (exists|j: int| 0 <= j < q.options@.len() && is_blank((#[trigger] q.options@[j])@))
    ||| q.correct_options@.len() == 0
}

proof fn lemma_blank_option_found(options: Seq<String>, j: int, k: int)
    requires
        0 <= j <= k < options.len(),
        is_blank(options[k]@),
    ensures
        first_blank_option(options, j) is Some,
    decreases k - j,
{
    if !is_blank(options[j]@) {
        lemma_blank_option_found(options, j + 1, k);
    }
}

proof fn lemma_faulty_question_found(qs: Seq<QuestionParams>, i: int, k: int)
    requires
        0 <= i <= k < qs.len(),
        faulty_question(qs[k]),
    ensures
        first_question_problem(qs, i) is Some,
    decreases k - i,
{
    let q = qs[i];
    if i == k && !is_blank(q.text@) && q.options@.len() >= 2 && q.correct_options@.len() > 0 {
        let j = choose|j: int| 0 <= j < q.options@.len() && is_blank((#[trigger] q.options@[j])@);
        lemma_blank_option_found(q.options@, 0, j);
    }
    if question_problem(q, i) is None {
        lemma_faulty_question_found(qs, i + 1, k);
    }
}

/// A creation request is refused when its window does not open after
/// `now`, is empty or exceeds 100 years, and when any question has blank
/// text, fewer than two options, a blank option or no correct option.
pub proof fn lemma_faulty_requests_refused(p: CreateQuizParams, authenticated: bool, now: u64)
    requires
        breaks_window(p, now) || (exists|i: int| 0 <= i < p.questions@.len()
            && faulty_question(#[trigger] p.questions@[i])),
    ensures
        create_failure(p, authenticated, now) is Some,
{
    if !breaks_window(p, now) {
        let i = choose|i: int| 0 <= i < p.questions@.len() && faulty_question(#[trigger] p.questions@[i]);
        lemma_faulty_question_found(p.questions@, 0, i);
    }
}

} // verus!
