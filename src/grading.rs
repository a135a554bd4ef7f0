//! Answer-shape checks and exact-set grading.
use vstd::multiset::Multiset;
use vstd::prelude::*;

use crate::state::Question;

verus! {

broadcast use vstd::seq_lib::group_to_multiset_ensures, vstd::multiset::group_multiset_axioms;

/// Whether two choices hold the same option indices, each as often:
/// sorting both gives the same list.
pub open spec fn same_choice(a: Seq<u32>, b: Seq<u32>) -> bool {
    a.to_multiset() == b.to_multiset()
}

/// Points a question awards for a choice: all of them on an exact match,
/// none otherwise.
pub open spec fn question_points(q: Question, choice: Seq<u32>) -> u32 {
    if same_choice(choice, q.correct_options@) { q.points } else { 0 }
}

/// Unsigned 32-bit addition that wraps around.
pub open spec fn wrap_add(a: u32, b: u32) -> u32 {
    if a + b > u32::MAX { (a + b - 0x1_0000_0000) as u32 } else { (a + b) as u32 }
}

/// Score of the first `k` questions, added up in question order.
pub open spec fn score_upto(qs: Seq<Question>, answers: Seq<Vec<u32>>, k: int) -> u32
    decreases k,
{
    if k <= 0 {
        0
    } else {
        wrap_add(score_upto(qs, answers, k - 1), question_points(qs[k - 1], answers[k - 1]@))
    }
}

/// Score of a whole answer sheet.
pub open spec fn score_of(qs: Seq<Question>, answers: Seq<Vec<u32>>) -> u32 {
    score_upto(qs, answers, qs.len() as int)
}

/// The position of the first index at or after `k` that names no option.
pub open spec fn first_out_of_range(choice: Seq<u32>, n_options: nat, k: int) -> Option<int>
    decreases choice.len() - k,
{
    if k < 0 || k >= choice.len() {
        None
    } else if choice[k] >= n_options {
        Some(k)
    } else {
        first_out_of_range(choice, n_options, k + 1)
    }
}

/// Whether `a` and `b` hold the same indices, each as often.
pub fn same_options(a: &Vec<u32>, b: &Vec<u32>) -> (r: bool)
    ensures
        r == same_choice(a@, b@),
{
    broadcast use vstd::seq_lib::lemma_multiset_commutative;

    let mut rest: Vec<u32> = Vec::new();
    let mut k: usize = 0;
    while k < b.len()
        invariant
            k <= b@.len(),
            rest@ == b@.take(k as int),
        decreases b@.len() - k,
    {
        rest.push(b[k]);
        k = k + 1;
        assert(rest@ =~= b@.take(k as int));
    }
    assert(b@.take(b@.len() as int) =~= b@);
    let n = a.len();
    let mut i: usize = 0;
    while i < n
        invariant
            i <= n,
            n == a@.len(),
            a@.take(i as int).to_multiset().add(rest@.to_multiset()) == b@.to_multiset(),
        decreases n - i,
    {
        let x = a[i];
        assert(a@.take(i + 1) =~= a@.take(i as int).push(x));
        let m = rest.len();
        let mut j: usize = 0;
        while j < m && rest[j] != x
            invariant
                j <= m,
                m == rest@.len(),
                forall|t: int| 0 <= t < j ==> rest@[t] != x,
            decreases m - j,
        {
            j = j + 1;
        }
        if j == m {
            proof {
                assert(!rest@.contains(x));
                assert(rest@.to_multiset().count(x) == 0);
                assert(a@ =~= a@.take(i + 1) + a@.skip(i + 1));
                vstd::seq_lib::lemma_multiset_commutative(a@.take(i + 1), a@.skip(i + 1));
                assert(a@.to_multiset().count(x) >= a@.take(i + 1).to_multiset().count(x));
                assert(b@.to_multiset().count(x) == a@.take(i as int).to_multiset().count(x));
            }
            return false;
        }
        let ghost before = rest@;
        rest.remove(j);
        proof {
            assert(rest@ == before.remove(j as int));
            assert(rest@.to_multiset() == before.to_multiset().remove(x));
            assert(before.to_multiset().count(x) > 0);
            assert(a@.take(i + 1).to_multiset().add(rest@.to_multiset())
                =~= a@.take(i as int).to_multiset().add(before.to_multiset()));
        }
        i = i + 1;
    }
    assert(a@.take(n as int) =~= a@);
    if rest.len() == 0 {
        assert(rest@.to_multiset() =~= Multiset::empty());
        assert(a@.to_multiset().add(Multiset::empty()) =~= a@.to_multiset());
        true
    } else {
        proof {
            assert(b@.to_multiset().len() == a@.to_multiset().len() + rest@.to_multiset().len());
        }
        false
    }
}

/// Whether no index is chosen twice.
pub fn distinct_options(a: &Vec<u32>) -> (r: bool)
    ensures
        r == a@.no_duplicates(),
{
    let n = a.len();
    let mut i: usize = 0;
    while i < n
        invariant
            i <= n,
            n == a@.len(),
            forall|s: int, t: int| 0 <= s < t < n && s < i ==> a@[s] != a@[t],
        decreases n - i,
    {
        let mut j: usize = i + 1;
        while j < n
            invariant
                i < j <= n,
                n == a@.len(),
                forall|s: int, t: int| 0 <= s < t < n && s < i ==> a@[s] != a@[t],
                forall|t: int| i < t < j ==> a@[i as int] != a@[t],
            decreases n - j,
        {
            if a[i] == a[j] {
                return false;
            }
            j = j + 1;
        }
        i = i + 1;
    }
    true
}

/// The position of the first index that names no option, if any.
pub fn find_out_of_range(choice: &Vec<u32>, n_options: usize) -> (r: Option<usize>)
    ensures
        r is None <==> first_out_of_range(choice@, n_options as nat, 0) is None,
        r is Some ==> first_out_of_range(choice@, n_options as nat, 0) == Some(r->0 as int)
            && r->0 < choice@.len(),
{
    let n = choice.len();
    let mut k: usize = 0;
    while k < n
        invariant
            k <= n,
            n == choice@.len(),
            first_out_of_range(choice@, n_options as nat, 0) == first_out_of_range(choice@, n_options as nat, k as int),
        decreases n - k,
    {
        if choice[k] as usize >= n_options {
            return Some(k);
        }
        k = k + 1;
    }
    None
}

/// Grades an answer sheet: the sum, in question order and wrapping at
/// 32 bits, of the points of every exactly matched question.
pub fn grade(questions: &Vec<Question>, answers: &Vec<Vec<u32>>) -> (r: u32)
    requires
        answers@.len() == questions@.len(),
    ensures
        r == score_of(questions@, answers@),
{
    let n = questions.len();
    let mut score: u32 = 0;
    let mut i: usize = 0;
    while i < n
        invariant
            i <= n,
            n == questions@.len(),
            answers@.len() == n,
            score == score_upto(questions@, answers@, i as int),
        decreases n - i,
    {
        let q = &questions[i];
        if same_options(&answers[i], &q.correct_options) {
            score = score.wrapping_add(q.points);
        } else {
            score = score.wrapping_add(0);
        }
        i = i + 1;
    }
    score
}

} // verus!

verus! {

/// Grading is exact-set matching: where neither the choice nor the
/// question's correct options repeat an index, the question awards its
/// points exactly when the two hold the same indices, in any order, and
/// nothing for a missing or an extra index.
pub proof fn lemma_exact_set_match(q: Question, choice: Seq<u32>)
    requires
        choice.no_duplicates(),
        q.correct_options@.no_duplicates(),
    ensures
        question_points(q, choice) == if choice.to_set() == q.correct_options@.to_set() {
            q.points
        } else {
            0
        },
{
    let c = q.correct_options@;
    choice.lemma_multiset_has_no_duplicates();
    c.lemma_multiset_has_no_duplicates();
    if choice.to_set() == c.to_set() {
        assert forall|x: u32| choice.to_multiset().count(x) == c.to_multiset().count(x) by {
            assert(choice.to_set().contains(x) == c.to_set().contains(x));
            assert(choice.contains(x) <==> choice.to_multiset().count(x) > 0);
            assert(c.contains(x) <==> c.to_multiset().count(x) > 0);
        }
        assert(choice.to_multiset() =~= c.to_multiset());
    } else if choice.to_multiset() == c.to_multiset() {
        assert forall|y: u32| choice.to_set().contains(y) == c.to_set().contains(y) by {
            assert(choice.contains(y) <==> choice.to_multiset().count(y) > 0);
            assert(c.contains(y) <==> c.to_multiset().count(y) > 0);
        }
        assert(choice.to_set() =~= c.to_set());
    }
}

} // verus!
