use rusty_x::engine::{insert_match, precedes, rank, rank_scored, score, MatchResult};

fn strings(items: &[&str]) -> Vec<String> {
    items.iter().map(|s| s.to_string()).collect()
}

fn indices_of(ranked: &Vec<MatchResult>) -> Vec<usize> {
    ranked.iter().map(|m| m.candidate_index).collect()
}

fn entry(candidate_index: usize, score: i64) -> MatchResult {
    MatchResult { candidate_index, score, matched_positions: Vec::new() }
}

#[test]
fn score_of_empty_term_is_baseline() {
    assert_eq!(score("apple.md", ""), Some((0, vec![])));
    assert_eq!(score("", ""), Some((0, vec![])));
}

#[test]
fn score_rejects_what_is_no_subsequence() {
    assert_eq!(score("abc", "abx"), None);
    assert_eq!(score("", "a"), None);
    assert_eq!(score("banana.md", "ap"), None);
    assert_eq!(score("grape.md", "pa"), None);
    assert_eq!(score("ba", "ab"), None);
}

#[test]
fn score_reports_matched_offsets() {
    let (_, positions) = score("axbycz", "abc").unwrap();
    assert_eq!(positions, vec![0, 2, 4]);
    let (_, positions) = score("apple.md", "ap").unwrap();
    assert_eq!(positions, vec![0, 1]);
}

#[test]
fn score_ignores_ascii_case() {
    assert!(score("apple.md", "AP").is_some());
    assert!(score("APPLE.md", "ap").is_some());
    let (_, positions) = score("Hello", "hl").unwrap();
    assert_eq!(positions.len(), 2);
    assert_eq!(positions[0], 0);
}

#[test]
fn score_gives_the_matchers_values() {
    assert_eq!(score("apple.md", "ap"), Some((34, vec![0, 1])));
    assert_eq!(score("grape.md", "ap"), Some((14, vec![2, 3])));
    assert_eq!(score("acb", "ab"), Some((22, vec![0, 2])));
    assert_eq!(score("apple.md", "AP"), Some((24, vec![0, 1])));
    assert_eq!(score("grape.md", "a"), Some((-4, vec![2])));
    assert_eq!(score("b", "b"), Some((16, vec![0])));
}

#[test]
fn precedes_orders_by_score_then_index() {
    assert!(precedes(&entry(5, 10), &entry(1, 9)));
    assert!(!precedes(&entry(1, 9), &entry(5, 10)));
    assert!(precedes(&entry(1, 7), &entry(2, 7)));
    assert!(!precedes(&entry(2, 7), &entry(1, 7)));
    assert!(!precedes(&entry(2, 7), &entry(2, 7)));
}

#[test]
fn insert_match_keeps_ranking_order() {
    let mut ranked = vec![entry(4, 9), entry(1, 5), entry(3, 5), entry(0, 1)];
    insert_match(&mut ranked, entry(2, 5));
    assert_eq!(indices_of(&ranked), vec![4, 1, 2, 3, 0]);
    insert_match(&mut ranked, entry(7, 100));
    assert_eq!(indices_of(&ranked), vec![7, 4, 1, 2, 3, 0]);
    insert_match(&mut ranked, entry(8, -3));
    assert_eq!(indices_of(&ranked), vec![7, 4, 1, 2, 3, 0, 8]);
}

#[test]
fn insert_match_into_empty_ranking() {
    let mut ranked: Vec<MatchResult> = Vec::new();
    insert_match(&mut ranked, entry(3, 2));
    assert_eq!(indices_of(&ranked), vec![3]);
    assert_eq!(ranked[0].score, 2);
}

#[test]
fn rank_scored_sorts_best_first_and_drops_misses() {
    let scored = vec![
        Some((5, vec![0])),
        None,
        Some((7, vec![1, 2])),
        Some((5, vec![3])),
        None,
        Some((9, vec![])),
    ];
    let ranked = rank_scored(scored);
    assert_eq!(indices_of(&ranked), vec![5, 2, 0, 3]);
    assert_eq!(ranked[1].score, 7);
    assert_eq!(ranked[1].matched_positions, vec![1, 2]);
    assert_eq!(ranked[3].matched_positions, vec![3]);
}

#[test]
fn rank_scored_of_nothing_is_empty() {
    assert!(rank_scored(Vec::new()).is_empty());
    assert!(rank_scored(vec![None, None]).is_empty());
}

#[test]
fn rank_is_deterministic() {
    let candidates = strings(&["apple.md", "snapple", "grape.md", "map", "Apricot"]);
    let first = rank(&candidates, "ap");
    let second = rank(&candidates, "ap");
    assert_eq!(first.len(), second.len());
    for (a, b) in first.iter().zip(second.iter()) {
        assert_eq!(a.candidate_index, b.candidate_index);
        assert_eq!(a.score, b.score);
        assert_eq!(a.matched_positions, b.matched_positions);
    }
}

#[test]
fn rank_with_empty_term_keeps_input_order() {
    let candidates = strings(&["zeta", "alpha", "", "mid"]);
    let ranked = rank(&candidates, "");
    assert_eq!(indices_of(&ranked), vec![0, 1, 2, 3]);
    for m in ranked.iter() {
        assert_eq!(m.score, 0);
        assert!(m.matched_positions.is_empty());
    }
}

#[test]
fn rank_of_no_candidates_is_empty() {
    let candidates: Vec<String> = Vec::new();
    assert!(rank(&candidates, "").is_empty());
    assert!(rank(&candidates, "a").is_empty());
}

#[test]
fn rank_lists_exactly_the_matching_candidates() {
    let candidates = strings(&["apple.md", "banana.md", "grape.md"]);
    let ranked = rank(&candidates, "ap");
    assert_eq!(indices_of(&ranked), vec![0, 2]);
    assert_eq!(ranked[0].matched_positions, vec![0, 1]);
    assert_eq!(ranked[1].matched_positions, vec![2, 3]);
    assert!(ranked[0].score > ranked[1].score);
    let ranked = rank(&candidates, "an");
    assert_eq!(indices_of(&ranked), vec![1]);
}

#[test]
fn rank_is_sorted_by_score_descending() {
    let candidates = strings(&["aoo_boo", "ab", "acb", "xyz", "ab"]);
    let ranked = rank(&candidates, "ab");
    assert_eq!(ranked.len(), 4);
    for pair in ranked.windows(2) {
        assert!(
            pair[0].score > pair[1].score
                || (pair[0].score == pair[1].score
                    && pair[0].candidate_index < pair[1].candidate_index)
        );
    }
    assert_eq!(indices_of(&ranked), vec![0, 1, 4, 2]);
    let scores: Vec<i64> = ranked.iter().map(|m| m.score).collect();
    assert_eq!(scores, vec![34, 34, 34, 22]);
}
