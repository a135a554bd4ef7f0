//! The engine's state: the quiz catalog, the attempts, and the id counter.
use vstd::prelude::*;

use crate::abi::{CreateQuizParams, LeaderboardEntry, QuestionParams};

verus! {

/// A stored question; `id` is its zero-based position in the quiz.
#[derive(Debug, Clone)]
pub struct Question {
    pub id: u32,
    pub text: String,
    pub options: Vec<String>,
    pub correct_options: Vec<u32>,
    pub points: u32,
}

/// A published quiz. Times are microseconds since the epoch.
#[derive(Debug, Clone)]
pub struct QuizSet {
    pub id: u64,
    pub title: String,
    pub description: String,
    pub creator: String,
    pub questions: Vec<Question>,
    pub time_limit: u64,
    pub start_time: u64,
    pub end_time: u64,
    pub created_at: u64,
}

/// A graded submission, unique per quiz and user.
#[derive(Debug, Clone)]
pub struct UserAttempt {
    pub quiz_id: u64,
    pub user: String,
    pub answers: Vec<Vec<u32>>,
    pub score: u32,
    pub time_taken: u64,
    pub completed_at: u64,
}

/// The whole mutable state. Quiz `k` and its cached leaderboard are stored
/// at position `k - 1`; `user_attempts` is the append-only log of accepted
/// submissions.
pub struct QuizState {
    pub next_quiz_id: u64,
    pub quiz_sets: Vec<QuizSet>,
    pub user_attempts: Vec<UserAttempt>,
    pub leaderboards: Vec<Vec<LeaderboardEntry>>,
}

/// The stored form of the `i`-th question of a creation request.
pub open spec fn question_from(p: QuestionParams, i: int) -> Question {
    Question {
        id: i as u32,
        text: p.text,
        options: p.options,
        correct_options: p.correct_options,
        points: p.points,
    }
}

/// Whether `q` is the quiz that `p` describes, with the given id, window and
/// creation time.
pub open spec fn quiz_from(q: QuizSet, p: CreateQuizParams, id: u64, start: u64, end: u64, now: u64) -> bool {
    &&& q.id == id
    &&& q.title == p.title
    &&& q.description == p.description
    &&& q.creator == p.nick_name
    &&& q.time_limit == p.time_limit
    &&& q.start_time == start
    &&& q.end_time == end
    &&& q.created_at == now
    &&& q.questions@.len() == p.questions@.len()
    &&& forall|i: int| 0 <= i < q.questions@.len()
        ==> #[trigger] q.questions@[i] == question_from(p.questions@[i], i)
}

/// Whether `a` is an attempt by `user` on quiz `quiz_id`.
pub open spec fn attempt_of(a: UserAttempt, quiz_id: u64, user: Seq<char>) -> bool {
    a.quiz_id == quiz_id && a.user@ == user
}

/// Whether the log holds an attempt by `user` on quiz `quiz_id`.
pub open spec fn has_attempt(attempts: Seq<UserAttempt>, quiz_id: u64, user: Seq<char>) -> bool {
    exists|i: int| 0 <= i < attempts.len() && attempt_of(#[trigger] attempts[i], quiz_id, user)
}

impl QuizState {
    /// Ids are sequential from 1 and the counter names the next one;
    /// no user holds two attempts on one quiz.
    pub open spec fn wf(&self) -> bool {
        &&& self.next_quiz_id == self.quiz_sets@.len() + 1
        &&& forall|i: int| 0 <= i < self.quiz_sets@.len() ==> (#[trigger] self.quiz_sets@[i]).id == i + 1
        &&& self.leaderboards@.len() == self.quiz_sets@.len()
        &&& forall|i: int, j: int| 0 <= i < j < self.user_attempts@.len()
            ==> !attempt_of(#[trigger] self.user_attempts@[i], self.user_attempts@[j].quiz_id,
                #[trigger] self.user_attempts@[j].user@)
    }

    /// Whether a quiz with this id exists.
    pub open spec fn has_quiz(&self, quiz_id: u64) -> bool {
        1 <= quiz_id < self.next_quiz_id
    }

    /// The quiz with this id, where `has_quiz` holds.
    pub open spec fn quiz(&self, quiz_id: u64) -> QuizSet {
        self.quiz_sets@[quiz_id - 1]
    }

    /// The cached leaderboard of the quiz with this id.
    pub open spec fn cached_board(&self, quiz_id: u64) -> Seq<LeaderboardEntry> {
        self.leaderboards@[quiz_id - 1]@
    }

    /// An empty catalog whose first quiz will get id 1.
    pub fn new() -> (r: QuizState)
        ensures
            r.wf(),
            r.next_quiz_id == 1,
            r.quiz_sets@.len() == 0,
            r.user_attempts@.len() == 0,
    {
        QuizState { next_quiz_id: 1, quiz_sets: Vec::new(), user_attempts: Vec::new(), leaderboards: Vec::new() }
    }

    /// The quiz with this id, if there is one.
    pub fn quiz_set(&self, quiz_id: u64) -> (r: Option<&QuizSet>)
        requires
            self.wf(),
        ensures
            self.has_quiz(quiz_id) ==> r == Some(&self.quiz(quiz_id)),
            !self.has_quiz(quiz_id) ==> r is None,
    {
        if quiz_id == 0 || quiz_id >= self.next_quiz_id {
            None
        } else {
            let n = self.quiz_sets.len();
            assert(quiz_id - 1 < n);
            let idx = (quiz_id - 1) as usize;
            assert(idx == quiz_id - 1);
            Some(&self.quiz_sets[idx])
        }
    }

    /// Whether `user` already holds an attempt on quiz `quiz_id`.
    pub fn has_submitted(&self, quiz_id: u64, user: &String) -> (r: bool)
        ensures
            r == has_attempt(self.user_attempts@, quiz_id, user@),
    {
        let n = self.user_attempts.len();
        let mut i: usize = 0;
        while i < n
            invariant
                i <= n,
                n == self.user_attempts@.len(),
                forall|k: int| 0 <= k < i ==> !attempt_of(#[trigger] self.user_attempts@[k], quiz_id, user@),
            decreases n - i,
        {
            let a = &self.user_attempts[i];
            if a.quiz_id == quiz_id && a.user == *user {
                return true;
            }
            i = i + 1;
        }
        false
    }
}

} // verus!

verus! {

/// The ids of the quizzes that `user` has attempted, in order of attempt.
pub open spec fn participations(attempts: Seq<UserAttempt>, user: Seq<char>) -> Seq<u64>
    decreases attempts.len(),
{
    if attempts.len() == 0 {
        Seq::empty()
    } else if attempts.last().user@ == user {
        participations(attempts.drop_last(), user).push(attempts.last().quiz_id)
    } else {
        participations(attempts.drop_last(), user)
    }
}

/// The ids of the quizzes whose creator label is `creator`, in id order.
pub open spec fn created_by(quizzes: Seq<QuizSet>, creator: Seq<char>) -> Seq<u64>
    decreases quizzes.len(),
{
    if quizzes.len() == 0 {
        Seq::empty()
    } else if quizzes.last().creator@ == creator {
        created_by(quizzes.drop_last(), creator).push(quizzes.last().id)
    } else {
        created_by(quizzes.drop_last(), creator)
    }
}

impl QuizState {
    /// The ids of the quizzes that `user` has attempted, in order of attempt.
    pub fn user_participations(&self, user: &String) -> (r: Vec<u64>)
        ensures
            r@ == participations(self.user_attempts@, user@),
    {
        let n = self.user_attempts.len();
        let mut out: Vec<u64> = Vec::new();
        let mut i: usize = 0;
        while i < n
            invariant
                i <= n,
                n == self.user_attempts@.len(),
                out@ == participations(self.user_attempts@.take(i as int), user@),
            decreases n - i,
        {
            assert(self.user_attempts@.take(i + 1).drop_last() =~= self.user_attempts@.take(i as int));
            if self.user_attempts[i].user == *user {
                out.push(self.user_attempts[i].quiz_id);
            }
            i = i + 1;
        }
        assert(self.user_attempts@.take(n as int) =~= self.user_attempts@);
        out
    }

    /// The ids of the quizzes created under the label `creator`.
    pub fn user_created_quizzes(&self, creator: &String) -> (r: Vec<u64>)
        ensures
            r@ == created_by(self.quiz_sets@, creator@),
    {
        let n = self.quiz_sets.len();
        let mut out: Vec<u64> = Vec::new();
        let mut i: usize = 0;
        while i < n
            invariant
                i <= n,
                n == self.quiz_sets@.len(),
                out@ == created_by(self.quiz_sets@.take(i as int), creator@),
            decreases n - i,
        {
            assert(self.quiz_sets@.take(i + 1).drop_last() =~= self.quiz_sets@.take(i as int));
            if self.quiz_sets[i].creator == *creator {
                out.push(self.quiz_sets[i].id);
            }
            i = i + 1;
        }
        assert(self.quiz_sets@.take(n as int) =~= self.quiz_sets@);
        out
    }
}

/// A user's participations hold no quiz twice.
pub proof fn lemma_participations_distinct(s: QuizState, user: Seq<char>)
    requires
        s.wf(),
    ensures
        participations(s.user_attempts@, user).no_duplicates(),
{
    lemma_participations_distinct_prefix(s, user, s.user_attempts@.len() as int);
    assert(s.user_attempts@.take(s.user_attempts@.len() as int) =~= s.user_attempts@);
}

proof fn lemma_participations_distinct_prefix(s: QuizState, user: Seq<char>, n: int)
    requires
        s.wf(),
        0 <= n <= s.user_attempts@.len(),
    ensures
        participations(s.user_attempts@.take(n), user).no_duplicates(),
        forall|q: u64| participations(s.user_attempts@.take(n), user).contains(q)
            ==> exists|i: int| 0 <= i < n && attempt_of(#[trigger] s.user_attempts@[i], q, user),
    decreases n,
{
    let t = s.user_attempts@.take(n);
    if n > 0 {
        lemma_participations_distinct_prefix(s, user, n - 1);
        assert(t.drop_last() =~= s.user_attempts@.take(n - 1));
        let prev = participations(s.user_attempts@.take(n - 1), user);
        let a = s.user_attempts@[n - 1];
        if a.user@ == user {
            assert forall|q: u64| prev.push(a.quiz_id).contains(q)
                implies exists|i: int| 0 <= i < n && attempt_of(#[trigger] s.user_attempts@[i], q, user) by {
                if q == a.quiz_id {
                    assert(attempt_of(s.user_attempts@[n - 1], q, user));
                } else {
                    assert(prev.contains(q));
                }
            }
            if prev.contains(a.quiz_id) {
                let i = choose|i: int| 0 <= i < n - 1 && attempt_of(#[trigger] s.user_attempts@[i], a.quiz_id, user);
                assert(!attempt_of(s.user_attempts@[i], s.user_attempts@[n - 1].quiz_id, s.user_attempts@[n - 1].user@));
            }
            assert forall|x: int, y: int| 0 <= x < y < prev.push(a.quiz_id).len()
                implies prev.push(a.quiz_id)[x] != prev.push(a.quiz_id)[y] by {
                if y == prev.len() {
                    assert(prev.contains(prev[x]));
                }
            }
        }
    }
}

} // verus!
