use quiz::abi::LeaderboardEntry;
use quiz::leaderboard::{merge_entry, sort_rows};

fn entry(user: &str, score: u32, time_taken: u64) -> LeaderboardEntry {
    LeaderboardEntry { user: user.to_string(), score, time_taken }
}

fn rows(v: &[LeaderboardEntry]) -> Vec<(String, u32, u64)> {
    v.iter().map(|e| (e.user.clone(), e.score, e.time_taken)).collect()
}

#[test]
fn merge_appends_new_user_with_zero_time() {
    let mut board = vec![entry("a", 9, 100), entry("b", 4, 50)];
    merge_entry(&mut board, "c".to_string(), 6);
    assert_eq!(
        rows(&board),
        vec![("a".to_string(), 9, 100), ("c".to_string(), 6, 0), ("b".to_string(), 4, 50)]
    );
}

#[test]
fn merge_overwrites_score_and_keeps_time() {
    let mut board = vec![entry("a", 9, 100), entry("b", 4, 50)];
    merge_entry(&mut board, "b".to_string(), 12);
    assert_eq!(rows(&board), vec![("b".to_string(), 12, 50), ("a".to_string(), 9, 100)]);
}

#[test]
fn merge_sort_ignores_time_on_ties() {
    let mut board = vec![entry("slow", 5, 900)];
    merge_entry(&mut board, "fast".to_string(), 5);
    assert_eq!(rows(&board), vec![("slow".to_string(), 5, 900), ("fast".to_string(), 5, 0)]);
    let mut empty = Vec::new();
    merge_entry(&mut empty, "x".to_string(), 0);
    assert_eq!(rows(&empty), vec![("x".to_string(), 0, 0)]);
}

#[test]
fn sort_rows_with_and_without_time() {
    let input = || vec![entry("A", 10, 5000), entry("B", 10, 3000), entry("C", 7, 1000)];
    assert_eq!(rows(&sort_rows(input(), true))[0].0, "B");
    assert_eq!(rows(&sort_rows(input(), false))[0].0, "A");
}
