//! Submission admission (window, one attempt per user, answer shape) and
//! recording of the graded attempt.
use vstd::prelude::*;
use vstd::string::*;

use crate::abi::{LeaderboardEntry, Operation, SubmitAnswersParams};
use crate::catalog::{create_failure, created, id_overflow_message, question_message};
use crate::error::{Failure, InvalidAnswerFormatError, QuizError, QuizResult};
use crate::grading::{distinct_options, find_out_of_range, first_out_of_range, grade, score_of};
use crate::leaderboard::{merge_entry, sorted_rows, with_score};
use crate::state::{Question, QuizState, UserAttempt, attempt_of, has_attempt};
use crate::text::{decimal, message_with_number};

verus! {

/// What is wrong with the choice for question `i`: an index chosen twice,
/// else the first index that names no option.
pub open spec fn choice_problem(q: Question, choice: Seq<u32>, i: int) -> Option<Failure> {
    if !choice.no_duplicates() {
        Some(Failure::InvalidAnswerFormat(question_message(i, " has duplicate answers"@)))
    } else {
        match first_out_of_range(choice, q.options@.len(), 0) {
            Some(k) => Some(Failure::InvalidAnswerFormat(
                question_message(i, " has invalid answer index: "@ + decimal(choice[k] as nat)),
            )),
            None => None,
        }
    }
}

/// The problem of the first faulty choice at or after question `i`.
pub open spec fn first_choice_problem(qs: Seq<Question>, answers: Seq<Vec<u32>>, i: int) -> Option<Failure>
    decreases qs.len() - i,
{
    if i < 0 || i >= qs.len() || i >= answers.len() {
        None
    } else {
        match choice_problem(qs[i], answers[i]@, i) {
            Some(f) => Some(f),
            None => first_choice_problem(qs, answers, i + 1),
        }
    }
}

/// The message for an answer sheet of the wrong length.
pub open spec fn count_mismatch_message(expected: nat, got: nat) -> Seq<char> {
    "Answer count mismatch: expected "@ + decimal(expected) + " answers, got "@ + decimal(got)
}

/// Why a submission is refused, the first failing rule in order: the quiz
/// exists, the window is open, the user has no attempt yet, one choice per
/// question, each choice well formed.
pub open spec fn submit_failure(s: QuizState, p: SubmitAnswersParams, now: u64) -> Option<Failure> {
    if !s.has_quiz(p.quiz_id) {
        Some(Failure::QuizNotFound(p.quiz_id))
    } else {
        let quiz = s.quiz(p.quiz_id);
        if now < quiz.start_time {
            Some(Failure::QuizNotStarted(p.quiz_id))
        } else if now > quiz.end_time {
            Some(Failure::QuizEnded(p.quiz_id))
        } else if has_attempt(s.user_attempts@, p.quiz_id, p.nick_name@) {
            Some(Failure::AlreadySubmitted(p.nick_name@, p.quiz_id))
        } else if p.answers@.len() != quiz.questions@.len() {
            Some(Failure::InvalidAnswerFormat(
                count_mismatch_message(quiz.questions@.len(), p.answers@.len()),
            ))
        } else {
            first_choice_problem(quiz.questions@, p.answers@, 0)
        }
    }
}

/// The attempt that an accepted submission records.
pub open spec fn attempt_from(s: QuizState, p: SubmitAnswersParams, now: u64) -> UserAttempt {
    UserAttempt {
        quiz_id: p.quiz_id,
        user: p.nick_name,
        answers: p.answers,
        score: score_of(s.quiz(p.quiz_id).questions@, p.answers@),
        time_taken: p.time_taken,
        completed_at: now,
    }
}

/// Whether `after` is `before` with the attempt of an accepted submission
/// appended to the log and its score merged into that quiz's cached
/// leaderboard, all else as it was.
pub open spec fn submitted(before: QuizState, after: QuizState, p: SubmitAnswersParams, now: u64) -> bool {
    let k = p.quiz_id - 1;
    &&& after.user_attempts@ == before.user_attempts@.push(attempt_from(before, p, now))
    &&& after.leaderboards@.len() == before.leaderboards@.len()
    &&& after.cached_board(p.quiz_id) == sorted_rows(
        with_score(before.cached_board(p.quiz_id), p.nick_name, attempt_from(before, p, now).score),
        false,
    )
    &&& forall|i: int| 0 <= i < after.leaderboards@.len() && i != k
        ==> #[trigger] after.leaderboards@[i] == before.leaderboards@[i]
    &&& after.quiz_sets == before.quiz_sets
    &&& after.next_quiz_id == before.next_quiz_id
}

fn answer_format_error(message: String) -> (r: QuizError)
    ensures
        r@ == Failure::InvalidAnswerFormat(message@),
{
    QuizError::InvalidAnswerFormat(InvalidAnswerFormatError { message })
}

/// Checks the choice for one question against the shape rules.
pub fn check_choice(q: &Question, choice: &Vec<u32>, i: usize) -> (r: Option<QuizError>)
    requires
        i < usize::MAX,
    ensures
        match choice_problem(*q, choice@, i as int) {
            Some(f) => r is Some && r->0@ == f,
            None => r is None,
        },
{
    let number = (i + 1) as u64;
    if !distinct_options(choice) {
        return Some(answer_format_error(message_with_number("Question ", number, " has duplicate answers")));
    }
    match find_out_of_range(choice, q.options.len()) {
        Some(k) => {
            let mut message = message_with_number("Question ", number, " has invalid answer index: ");
            let index = message_with_number("", choice[k] as u64, "");
            message.append(index.as_str());
            proof {
                reveal_strlit("");
                assert(message@ =~= question_message(i as int,
                    " has invalid answer index: "@ + decimal(choice@[k as int] as nat)));
            }
            Some(answer_format_error(message))
        },
        None => None,
    }
}

impl QuizState {
    /// Admits, grades and records one submission at time `now`. A refused
    /// submission leaves the state as it was; an accepted one appends its
    /// attempt to the log and merges its score into the quiz's cached
    /// leaderboard.
    pub fn submit_answers(&mut self, params: SubmitAnswersParams, now: u64) -> (r: QuizResult<()>)
        requires
            old(self).wf(),
        ensures
            final(self).wf(),
            match submit_failure(*old(self), params, now) {
                Some(f) => r.is_failure_with(f) && *final(self) == *old(self),
                None => r.is_success_with(()) && submitted(*old(self), *final(self), params, now),
            },
    {
        let quiz_id = params.quiz_id;
        let quiz = match self.quiz_set(quiz_id) {
            Some(q) => q,
            None => return QuizResult::quiz_not_found(quiz_id),
        };
        if now < quiz.start_time {
            return QuizResult::quiz_not_started(quiz_id);
        }
        if now > quiz.end_time {
            return QuizResult::quiz_ended(quiz_id);
        }
        if self.has_submitted(quiz_id, &params.nick_name) {
            return QuizResult::already_submitted(params.nick_name, quiz_id);
        }
        let n = quiz.questions.len();
        if params.answers.len() != n {
            let mut message = message_with_number("Answer count mismatch: expected ", n as u64, " answers, got ");
            let got = message_with_number("", params.answers.len() as u64, "");
            message.append(got.as_str());
            proof {
                reveal_strlit("");
                assert(message@ =~= count_mismatch_message(n as nat, params.answers@.len()));
            }
            return QuizResult::invalid_answer_format(message);
        }
        let mut i: usize = 0;
        while i < n
            invariant
                i <= n,
                n == quiz.questions@.len(),
                params.answers@.len() == n,
                *quiz == old(self).quiz(quiz_id),
                *self == *old(self),
                old(self).wf(),
                submit_failure(*old(self), params, now) == first_choice_problem(quiz.questions@, params.answers@, 0),
                first_choice_problem(quiz.questions@, params.answers@, 0)
                    == first_choice_problem(quiz.questions@, params.answers@, i as int),
            decreases n - i,
        {
            match check_choice(&quiz.questions[i], &params.answers[i], i) {
                Some(e) => return QuizResult::from_error(e),
                None => {},
            }
            i = i + 1;
        }
        let score = grade(&quiz.questions, &params.answers);
        let user = params.nick_name.clone();
        let attempt = UserAttempt {
            quiz_id,
            user: params.nick_name,
            answers: params.answers,
            score,
            time_taken: params.time_taken,
            completed_at: now,
        };
        self.user_attempts.push(attempt);
        let k = (quiz_id - 1) as usize;
        let mut board: Vec<LeaderboardEntry> = Vec::new();
        std::mem::swap(&mut board, &mut self.leaderboards[k]);
        merge_entry(&mut board, user, score);
        self.leaderboards.set(k, board);
        proof {
            let s = final(self).user_attempts@;
            assert forall|a: int, b: int| 0 <= a < b < s.len() implies
                !attempt_of(#[trigger] s[a], s[b].quiz_id, #[trigger] s[b].user@) by {
                if b == s.len() - 1 {
                    assert(s[a] == old(self).user_attempts@[a]);
                }
            }
        }
        QuizResult::success(())
    }
}

} // verus!

verus! {

/// A submission to an existing quiz before its window opens, or after it
/// closes, is refused as not started, or as ended (and `submit_answers`
/// leaves the state unchanged on every refusal).
pub proof fn lemma_outside_window_refused(s: QuizState, p: SubmitAnswersParams, now: u64)
    requires
        s.has_quiz(p.quiz_id),
        now < s.quiz(p.quiz_id).start_time || now > s.quiz(p.quiz_id).end_time,
    ensures
        submit_failure(s, p, now) == Some(if now < s.quiz(p.quiz_id).start_time {
            Failure::QuizNotStarted(p.quiz_id)
        } else {
            Failure::QuizEnded(p.quiz_id)
        }),
{
}

/// Once a submission is accepted, every later submission by the same user
/// to the same quiz is refused, as already submitted while the window is
/// open (and `submit_answers` leaves the state, the first attempt included,
/// unchanged on every refusal).
pub proof fn lemma_second_submission_refused(
    s: QuizState,
    first: SubmitAnswersParams,
    now: u64,
    after: QuizState,
    second: SubmitAnswersParams,
    later: u64,
)
    requires
        s.wf(),
        submit_failure(s, first, now) is None,
        submitted(s, after, first, now),
        second.quiz_id == first.quiz_id,
        second.nick_name@ == first.nick_name@,
    ensures
        submit_failure(after, second, later) is Some,
        after.quiz(second.quiz_id).start_time <= later <= after.quiz(second.quiz_id).end_time
            ==> submit_failure(after, second, later)
            == Some(Failure::AlreadySubmitted(second.nick_name@, second.quiz_id)),
{
    let last = after.user_attempts@.len() - 1;
    assert(attempt_of(after.user_attempts@[last], second.quiz_id, second.nick_name@));
}

} // verus!

verus! {

impl QuizState {
    /// Runs one operation for a caller at time `now`: a created quiz
    /// answers with its id, an accepted submission with no value.
    pub fn execute_operation(&mut self, operation: Operation, authenticated: bool, now: u64) -> (r: QuizResult<Option<u64>>)
        requires
            old(self).wf(),
        ensures
            final(self).wf(),
            match operation {
                Operation::CreateQuiz(p) => match create_failure(p, authenticated, now) {
                    Some(f) => r.is_failure_with(f) && *final(self) == *old(self),
                    None => if old(self).next_quiz_id == u64::MAX {
                        r.is_failure_with(Failure::Other(id_overflow_message())) && *final(self) == *old(self)
                    } else {
                        r.is_success_with(Some(old(self).next_quiz_id)) && created(*old(self), *final(self), p, now)
                    },
                },
                Operation::SubmitAnswers(p) => match submit_failure(*old(self), p, now) {
                    Some(f) => r.is_failure_with(f) && *final(self) == *old(self),
                    None => r.is_success_with(None) && submitted(*old(self), *final(self), p, now),
                },
            },
    {
        let outcome = match operation {
            Operation::CreateQuiz(params) => {
                let r = self.create_quiz(params, authenticated, now);
                QuizResult { data: match r.data { Some(id) => Some(Some(id)), None => None }, error: r.error }
            },
            Operation::SubmitAnswers(params) => {
                let r = self.submit_answers(params, now);
                QuizResult { data: match r.data { Some(_) => Some(None), None => None }, error: r.error }
            },
        };
        outcome
    }
}

} // verus!
