//! Leaderboards ranked from the attempt log: per quiz, and across quizzes.
use vstd::prelude::*;

use crate::abi::LeaderboardEntry;
use crate::state::{QuizState, UserAttempt};

verus! {

/// Whether `a` stands strictly before `b`: a higher score or, where
/// `by_time` holds, the same score in less time.
pub open spec fn ahead(a: LeaderboardEntry, b: LeaderboardEntry, by_time: bool) -> bool {
    a.score > b.score || (by_time && a.score == b.score && a.time_taken < b.time_taken)
}

/// Whether `a` ranks strictly above `b`: a higher score, or the same score
/// in less time.
pub open spec fn outranks(a: LeaderboardEntry, b: LeaderboardEntry) -> bool {
    ahead(a, b, true)
}

/// `e` placed into `s` before the first entry it stands ahead of.
pub open spec fn rank_insert(s: Seq<LeaderboardEntry>, e: LeaderboardEntry, by_time: bool) -> Seq<LeaderboardEntry>
    decreases s.len(),
{
    if s.len() == 0 {
        seq![e]
    } else if ahead(e, s[0], by_time) {
        seq![e] + s
    } else {
        seq![s[0]] + rank_insert(s.drop_first(), e, by_time)
    }
}

/// The entries of `s` sorted by `ahead`; entries that tie keep their order.
pub open spec fn sorted_rows(s: Seq<LeaderboardEntry>, by_time: bool) -> Seq<LeaderboardEntry>
    decreases s.len(),
{
    if s.len() == 0 {
        s
    } else {
        rank_insert(sorted_rows(s.drop_last(), by_time), s.last(), by_time)
    }
}

/// The entries of `s` in rank order: higher score first, then less time;
/// entries that tie on both keep their order.
pub open spec fn ranked(s: Seq<LeaderboardEntry>) -> Seq<LeaderboardEntry> {
    sorted_rows(s, true)
}

/// The leaderboard row of an attempt.
pub open spec fn entry_of(a: UserAttempt) -> LeaderboardEntry {
    LeaderboardEntry { user: a.user, score: a.score, time_taken: a.time_taken }
}

/// The rows of the attempts on quiz `quiz_id`, in log order.
pub open spec fn quiz_entries(attempts: Seq<UserAttempt>, quiz_id: u64) -> Seq<LeaderboardEntry>
    decreases attempts.len(),
{
    if attempts.len() == 0 {
        Seq::empty()
    } else if attempts.last().quiz_id == quiz_id {
        quiz_entries(attempts.drop_last(), quiz_id).push(entry_of(attempts.last()))
    } else {
        quiz_entries(attempts.drop_last(), quiz_id)
    }
}

/// No entry stands ahead of one before it.
pub open spec fn in_order(s: Seq<LeaderboardEntry>, by_time: bool) -> bool {
    forall|i: int, j: int| 0 <= i < j < s.len() ==> !ahead(#[trigger] s[j], #[trigger] s[i], by_time)
}

/// No entry outranks one that stands before it.
pub open spec fn in_rank_order(s: Seq<LeaderboardEntry>) -> bool {
    in_order(s, true)
}

proof fn lemma_rank_insert_at(s: Seq<LeaderboardEntry>, e: LeaderboardEntry, by_time: bool, p: int)
    requires
        0 <= p <= s.len(),
        forall|t: int| 0 <= t < p ==> !ahead(e, #[trigger] s[t], by_time),
        p < s.len() ==> ahead(e, s[p], by_time),
    ensures
        rank_insert(s, e, by_time) == s.insert(p, e),
    decreases s.len(),
{
    if s.len() == 0 {
        assert(s.insert(p, e) =~= seq![e]);
    } else if p == 0 {
        assert(s.insert(p, e) =~= seq![e] + s);
    } else {
        let t = s.drop_first();
        assert forall|k: int| 0 <= k < p - 1 implies !ahead(e, #[trigger] t[k], by_time) by {
            assert(t[k] == s[k + 1]);
        }
        lemma_rank_insert_at(t, e, by_time, p - 1);
        assert(s.insert(p, e) =~= seq![s[0]] + t.insert(p - 1, e));
    }
}

/// Places `e` into a sorted list, before the first entry it stands ahead of.
pub fn insert_ranked(v: &mut Vec<LeaderboardEntry>, e: LeaderboardEntry, by_time: bool)
    ensures
        final(v)@ == rank_insert(old(v)@, e, by_time),
{
    let n = v.len();
    let mut p: usize = 0;
    while p < n && !(e.score > v[p].score
        || (by_time && e.score == v[p].score && e.time_taken < v[p].time_taken))
        invariant
            p <= n,
            n == v@.len(),
            forall|t: int| 0 <= t < p ==> !ahead(e, #[trigger] v@[t], by_time),
        decreases n - p,
    {
        p = p + 1;
    }
    proof { lemma_rank_insert_at(v@, e, by_time, p as int); }
    v.insert(p, e);
}

/// Sorts rows into rank order: higher score first, then less time; rows
/// that tie on both keep their order.
pub fn rank(entries: Vec<LeaderboardEntry>) -> (r: Vec<LeaderboardEntry>)
    ensures
        r@ == ranked(entries@),
{
    sort_rows(entries, true)
}

/// Sorts rows by score, highest first, and also by time, least first,
/// where `by_time` holds; rows that tie keep their order.
pub fn sort_rows(entries: Vec<LeaderboardEntry>, by_time: bool) -> (r: Vec<LeaderboardEntry>)
    ensures
        r@ == sorted_rows(entries@, by_time),
{
    let ghost all = entries@;
    let mut out: Vec<LeaderboardEntry> = Vec::new();
    let mut rest = entries;
    let mut taken: Vec<LeaderboardEntry> = Vec::new();
    // Take rows from the front by reversing once, then popping.
    while rest.len() > 0
        invariant
            taken@ == all.skip(rest@.len() as int).reverse(),
            rest@ == all.take(rest@.len() as int),
            rest@.len() <= all.len(),
        decreases rest@.len(),
    {
        let x = rest.pop().unwrap();
        taken.push(x);
        assert(rest@ =~= all.take(rest@.len() as int));
        assert(taken@ =~= all.skip(rest@.len() as int).reverse());
    }
    assert(all.skip(0) =~= all);
    while taken.len() > 0
        invariant
            taken@.len() <= all.len(),
            taken@ == all.skip(all.len() - taken@.len()).reverse(),
            out@ == sorted_rows(all.take(all.len() - taken@.len()), by_time),
        decreases taken@.len(),
    {
        let ghost k = all.len() - taken@.len();
        let x = taken.pop().unwrap();
        assert(x == all[k]);
        insert_ranked(&mut out, x, by_time);
        assert(all.take(k + 1).drop_last() =~= all.take(k));
        assert(taken@ =~= all.skip(all.len() - taken@.len()).reverse());
    }
    assert(all.take(all.len() as int) =~= all);
    out
}

impl QuizState {
    /// The rows of the attempts on quiz `quiz_id`, in log order.
    pub fn quiz_entries(&self, quiz_id: u64) -> (r: Vec<LeaderboardEntry>)
        ensures
            r@ == quiz_entries(self.user_attempts@, quiz_id),
    {
        let n = self.user_attempts.len();
        let mut out: Vec<LeaderboardEntry> = Vec::new();
        let mut i: usize = 0;
        while i < n
            invariant
                i <= n,
                n == self.user_attempts@.len(),
                out@ == quiz_entries(self.user_attempts@.take(i as int), quiz_id),
            decreases n - i,
        {
            let a = &self.user_attempts[i];
            assert(self.user_attempts@.take(i + 1).drop_last() =~= self.user_attempts@.take(i as int));
            if a.quiz_id == quiz_id {
                out.push(LeaderboardEntry { user: a.user.clone(), score: a.score, time_taken: a.time_taken });
            }
            i = i + 1;
        }
        assert(self.user_attempts@.take(n as int) =~= self.user_attempts@);
        out
    }

    /// The leaderboard of one quiz, recomputed from its attempts.
    pub fn quiz_leaderboard(&self, quiz_id: u64) -> (r: Vec<LeaderboardEntry>)
        ensures
            r@ == ranked(quiz_entries(self.user_attempts@, quiz_id)),
    {
        rank(self.quiz_entries(quiz_id))
    }
}

} // verus!

verus! {

broadcast use vstd::seq_lib::group_to_multiset_ensures, vstd::multiset::group_multiset_axioms;

proof fn lemma_rank_insert_keeps_order(s: Seq<LeaderboardEntry>, e: LeaderboardEntry, by_time: bool)
    requires
        in_order(s, by_time),
    ensures
        in_order(rank_insert(s, e, by_time), by_time),
        rank_insert(s, e, by_time).to_multiset() == s.to_multiset().insert(e),
    decreases s.len(),
{
    if s.len() == 0 {
        assert(seq![e] =~= Seq::<LeaderboardEntry>::empty().push(e));
    } else if ahead(e, s[0], by_time) {
        let r = seq![e] + s;
        assert(r =~= s.insert(0, e));
        assert forall|i: int, j: int| 0 <= i < j < r.len() implies !ahead(#[trigger] r[j], #[trigger] r[i], by_time) by {
            if i == 0 && j > 1 {
                assert(!ahead(s[j - 1], s[0], by_time));
            }
        }
    } else {
        let t = s.drop_first();
        assert forall|i: int, j: int| 0 <= i < j < t.len() implies !ahead(#[trigger] t[j], #[trigger] t[i], by_time) by {
            assert(t[j] == s[j + 1] && t[i] == s[i + 1]);
        }
        lemma_rank_insert_keeps_order(t, e, by_time);
        let rt = rank_insert(t, e, by_time);
        let r = seq![s[0]] + rt;
        assert(s =~= t.insert(0, s[0]));
        assert(r =~= rt.insert(0, s[0]));
        assert forall|i: int, j: int| 0 <= i < j < r.len() implies !ahead(#[trigger] r[j], #[trigger] r[i], by_time) by {
            if i == 0 {
                let x = r[j];
                assert(x == rt[j - 1]);
                assert(rt.contains(x));
                assert(rt.to_multiset().count(x) > 0);
                if x != e {
                    assert(t.to_multiset().count(x) > 0);
                    assert(t.contains(x));
                    let k = choose|k: int| 0 <= k < t.len() && t[k] == x;
                    assert(s[k + 1] == x);
                }
            } else {
                assert(r[i] == rt[i - 1] && r[j] == rt[j - 1]);
            }
        }
    }
}

proof fn lemma_sorted_rows_order(s: Seq<LeaderboardEntry>, by_time: bool)
    ensures
        in_order(sorted_rows(s, by_time), by_time),
        sorted_rows(s, by_time).to_multiset() == s.to_multiset(),
    decreases s.len(),
{
    if s.len() > 0 {
        lemma_sorted_rows_order(s.drop_last(), by_time);
        lemma_rank_insert_keeps_order(sorted_rows(s.drop_last(), by_time), s.last(), by_time);
        assert(s =~= s.drop_last().push(s.last()));
    }
}

/// A ranked leaderboard lists a higher score first and, on equal scores,
/// less time first, and holds every row it was given, each as often.
pub proof fn lemma_ranked_order(s: Seq<LeaderboardEntry>)
    ensures
        in_rank_order(ranked(s)),
        ranked(s).to_multiset() == s.to_multiset(),
{
    lemma_sorted_rows_order(s, true);
}

} // verus!

verus! {

/// Unsigned 32-bit addition that stops at the largest value.
pub open spec fn saturating_sum(a: u32, b: u32) -> u32 {
    if a + b > u32::MAX { u32::MAX } else { (a + b) as u32 }
}

/// The position of the first row of `user` at or after `k`.
pub open spec fn find_user(s: Seq<LeaderboardEntry>, user: Seq<char>, k: int) -> Option<int>
    decreases s.len() - k,
{
    if k < 0 || k >= s.len() {
        None
    } else if s[k].user@ == user {
        Some(k)
    } else {
        find_user(s, user, k + 1)
    }
}

/// `row` with the attempt `a` of the same user added in: scores summed
/// (saturating), the shorter time kept.
pub open spec fn merge_attempt(row: LeaderboardEntry, a: UserAttempt) -> LeaderboardEntry {
    LeaderboardEntry {
        user: row.user,
        score: saturating_sum(row.score, a.score),
        time_taken: if a.time_taken < row.time_taken { a.time_taken } else { row.time_taken },
    }
}

/// One row per user, in order of each user's first attempt, over all quizzes.
pub open spec fn user_totals(attempts: Seq<UserAttempt>) -> Seq<LeaderboardEntry>
    decreases attempts.len(),
{
    if attempts.len() == 0 {
        Seq::empty()
    } else {
        let rows = user_totals(attempts.drop_last());
        let a = attempts.last();
        match find_user(rows, a.user@, 0) {
            Some(k) => rows.update(k, merge_attempt(rows[k], a)),
            None => rows.push(entry_of(a)),
        }
    }
}

fn position_of_user(rows: &Vec<LeaderboardEntry>, user: &String) -> (r: Option<usize>)
    ensures
        r is None <==> find_user(rows@, user@, 0) is None,
        r is Some ==> find_user(rows@, user@, 0) == Some(r->0 as int) && r->0 < rows@.len(),
{
    let n = rows.len();
    let mut k: usize = 0;
    while k < n
        invariant
            k <= n,
            n == rows@.len(),
            find_user(rows@, user@, 0) == find_user(rows@, user@, k as int),
        decreases n - k,
    {
        if rows[k].user == *user {
            return Some(k);
        }
        k = k + 1;
    }
    None
}

impl QuizState {
    /// One row per user over all quizzes: the saturating sum of the user's
    /// scores and the least time of the user's attempts.
    pub fn user_totals(&self) -> (r: Vec<LeaderboardEntry>)
        ensures
            r@ == user_totals(self.user_attempts@),
    {
        let n = self.user_attempts.len();
        let mut rows: Vec<LeaderboardEntry> = Vec::new();
        let mut i: usize = 0;
        while i < n
            invariant
                i <= n,
                n == self.user_attempts@.len(),
                rows@ == user_totals(self.user_attempts@.take(i as int)),
            decreases n - i,
        {
            let a = &self.user_attempts[i];
            assert(self.user_attempts@.take(i + 1).drop_last() =~= self.user_attempts@.take(i as int));
            match position_of_user(&rows, &a.user) {
                Some(k) => {
                    let row = LeaderboardEntry {
                        user: rows[k].user.clone(),
                        score: rows[k].score.saturating_add(a.score),
                        time_taken: if a.time_taken < rows[k].time_taken { a.time_taken } else { rows[k].time_taken },
                    };
                    rows.set(k, row);
                },
                None => {
                    rows.push(LeaderboardEntry { user: a.user.clone(), score: a.score, time_taken: a.time_taken });
                },
            }
            i = i + 1;
        }
        assert(self.user_attempts@.take(n as int) =~= self.user_attempts@);
        rows
    }

    /// The leaderboard across all quizzes: each user's total, highest
    /// first, less time first on equal totals.
    pub fn global_leaderboard(&self) -> (r: Vec<LeaderboardEntry>)
        ensures
            r@ == ranked(user_totals(self.user_attempts@)),
    {
        rank(self.user_totals())
    }
}

} // verus!

verus! {

/// A cached leaderboard with `user`'s score set to `score`: the user's
/// first row takes the new score and keeps its time; a user without a row
/// gets one with time 0 at the end.
pub open spec fn with_score(rows: Seq<LeaderboardEntry>, user: String, score: u32) -> Seq<LeaderboardEntry> {
    match find_user(rows, user@, 0) {
        Some(k) => rows.update(k, LeaderboardEntry { user: rows[k].user, score, time_taken: rows[k].time_taken }),
        None => rows.push(LeaderboardEntry { user, score, time_taken: 0 }),
    }
}

/// Merges one user's score into a cached leaderboard, then re-sorts it by
/// score, highest first; rows with equal scores keep their order.
pub fn merge_entry(entries: &mut Vec<LeaderboardEntry>, user: String, score: u32)
    ensures
        final(entries)@ == sorted_rows(with_score(old(entries)@, user, score), false),
{
    match position_of_user(entries, &user) {
        Some(k) => {
            let row = LeaderboardEntry {
                user: entries[k].user.clone(),
                score,
                time_taken: entries[k].time_taken,
            };
            entries.set(k, row);
        },
        None => {
            entries.push(LeaderboardEntry { user, score, time_taken: 0 });
        },
    }
    let mut rows: Vec<LeaderboardEntry> = Vec::new();
    std::mem::swap(&mut rows, entries);
    let sorted = sort_rows(rows, false);
    *entries = sorted;
}

} // verus!
