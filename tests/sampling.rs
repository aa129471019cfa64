use llm_toy::error::GenerationError;
use llm_toy::sampler::{keep_nucleus, pick_candidate, rank_candidates, repeated_mask, score_row};

/// An integer that orders as the float does (IEEE total order).
fn order_key(x: f32) -> i32 {
    let b = x.to_bits() as i32;
    b ^ ((((b >> 31) as u32) >> 1) as i32)
}

fn keys(scores: &[f32]) -> Vec<i32> {
    scores.iter().map(|s| order_key(*s)).collect()
}

#[test]
fn last_row_of_rank_two_and_three() {
    assert_eq!(score_row(&vec![3, 5], 15).unwrap(), (10, 5));
    assert_eq!(score_row(&vec![1, 4], 4).unwrap(), (0, 4));
    assert_eq!(score_row(&vec![2, 3, 5], 30).unwrap(), (10, 5));
    assert_eq!(score_row(&vec![1, 1, 100], 100).unwrap(), (0, 100));
}

#[test]
fn other_ranks_are_refused() {
    assert!(matches!(score_row(&vec![5], 5), Err(GenerationError::UnsupportedScoreRank(1))));
    assert!(matches!(score_row(&vec![1, 1, 1, 5], 5), Err(GenerationError::UnsupportedScoreRank(4))));
    assert!(matches!(score_row(&vec![], 1), Err(GenerationError::UnsupportedScoreRank(0))));
}

#[test]
fn no_sequence_position_has_no_candidates() {
    assert!(matches!(score_row(&vec![0, 5], 0), Err(GenerationError::EmptyCandidateSet)));
    assert!(matches!(score_row(&vec![1, 0, 5], 0), Err(GenerationError::EmptyCandidateSet)));
}

#[test]
fn history_marks_penalised_entries() {
    assert_eq!(repeated_mask(&vec![2, 0, 2, 9, -1], 4), vec![true, false, true, false]);
    assert_eq!(repeated_mask(&vec![], 3), vec![false, false, false]);
}

#[test]
fn penalty_lowers_seen_scores_in_both_signs() {
    let scores = [2.0f32, -1.0, 0.0, 3.0];
    let penalty = 1.5f32;
    let mask = repeated_mask(&vec![0, 1, 2], scores.len());
    let penalised: Vec<f32> = scores
        .iter()
        .zip(mask.iter())
        .map(|(s, seen)| if *seen { if *s > 0.0 { s / penalty } else { s * penalty } } else { *s })
        .collect();
    assert!(penalised[0] < scores[0]);
    assert!(penalised[1] < scores[1]);
    assert_eq!(penalised[3], scores[3]);
}

#[test]
fn ranking_is_by_descending_score() {
    let k = keys(&[0.5, -2.0, 3.0, 0.5, 1.0]);
    assert_eq!(rank_candidates(&k, None), vec![2, 4, 0, 3, 1]);
    assert_eq!(rank_candidates(&k, Some(0)), vec![2, 4, 0, 3, 1]);
    assert_eq!(rank_candidates(&k, Some(5)), vec![2, 4, 0, 3, 1]);
    assert_eq!(rank_candidates(&k, Some(2)), vec![2, 4]);
    assert_eq!(rank_candidates(&vec![], Some(3)), Vec::<usize>::new());
}

#[test]
fn top_one_is_the_best_entry_whatever_the_draw() {
    let k = keys(&[0.1, 7.5, -3.0, 7.0, 2.0]);
    let ranked = rank_candidates(&k, Some(1));
    assert_eq!(ranked, vec![1]);
    for reached in [vec![true], vec![false], vec![]] {
        let kept = keep_nucleus(&ranked, &reached);
        for drawn in [vec![true], vec![false], vec![]] {
            assert_eq!(pick_candidate(&kept, &drawn).unwrap(), 1);
        }
    }
}

#[test]
fn nucleus_keeps_prefix_through_first_reach() {
    let ranked = vec![7, 3, 9, 1];
    assert_eq!(keep_nucleus(&ranked, &vec![false, true, true, true]), vec![7, 3]);
    assert_eq!(keep_nucleus(&ranked, &vec![true, true, true, true]), vec![7]);
    assert_eq!(keep_nucleus(&ranked, &vec![false, false, false, false]), vec![7, 3, 9, 1]);
    assert_eq!(keep_nucleus(&vec![], &vec![true]), Vec::<usize>::new());
}

#[test]
fn draw_selects_first_exhausting_candidate() {
    let cands = vec![4, 8, 15];
    assert_eq!(pick_candidate(&cands, &vec![false, true, true]).unwrap(), 8);
    assert_eq!(pick_candidate(&cands, &vec![true, true, true]).unwrap(), 4);
    assert_eq!(pick_candidate(&cands, &vec![false, false, false]).unwrap(), 15);
    assert!(matches!(pick_candidate(&vec![], &vec![true]), Err(GenerationError::EmptyCandidateSet)));
}

#[test]
fn same_inputs_give_same_choice() {
    let k = keys(&[0.3, 0.9, 0.1, 0.9, -0.4, 2.5]);
    let reached = vec![false, false, true, true];
    let drawn = vec![false, true, true];
    let first = pick_candidate(&keep_nucleus(&rank_candidates(&k, Some(4)), &reached), &drawn).unwrap();
    let second = pick_candidate(&keep_nucleus(&rank_candidates(&k, Some(4)), &reached), &drawn).unwrap();
    assert_eq!(first, second);
    assert_eq!(first, 1);
}
