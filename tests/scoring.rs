use uniform_logic::logic::RoundResult;
use uniform_logic::score::{ComboScoring, NormalScoring, Scoring, ScoringStrategy};

use RoundResult::{Lose, Tie, Win};

#[test]
fn flat_scoring_starts_at_zero() {
    assert_eq!(NormalScoring::new().get_score(), [0, 0, 0]);
}

#[test]
fn flat_scoring_adds_the_outcome_delta() {
    let mut s = NormalScoring::new();
    s.update_score(&[Win, Tie, Lose]);
    assert_eq!(s.get_score(), [1, 0, -1]);
    s.update_score(&[Win, Lose, Lose]);
    assert_eq!(s.get_score(), [2, -1, -2]);
}

#[test]
fn flat_scoring_all_tie_changes_nothing() {
    let mut s = NormalScoring::new();
    s.update_score(&[Win, Lose, Tie]);
    let before = s.get_score();
    s.update_score(&[Tie, Tie, Tie]);
    assert_eq!(s.get_score(), before);
}

#[test]
fn streak_scoring_starts_at_zero() {
    assert_eq!(ComboScoring::new().get_score(), [0, 0, 0]);
}

#[test]
fn streak_of_k_wins_scores_triangular_number() {
    let mut s = ComboScoring::new();
    for k in 1..=10 {
        s.update_score(&[Win, Tie, Lose]);
        assert_eq!(s.get_score()[0], k * (k + 1) / 2);
    }
    assert_eq!(s.get_score(), [55, 0, 0]);
}

#[test]
fn streak_loss_resets_without_penalty() {
    let mut s = ComboScoring::new();
    s.update_score(&[Win, Win, Win]);
    s.update_score(&[Win, Win, Win]);
    assert_eq!(s.get_score(), [3, 3, 3]);
    s.update_score(&[Lose, Tie, Win]);
    assert_eq!(s.get_score(), [3, 3, 6]);
    // agent 0 restarts its streak, agent 1 kept it through the tie
    s.update_score(&[Win, Win, Lose]);
    assert_eq!(s.get_score(), [4, 6, 6]);
}

#[test]
fn strategy_selection_follows_the_flag() {
    let mut flat = ScoringStrategy::select(false);
    let mut streak = ScoringStrategy::select(true);
    assert!(matches!(flat, ScoringStrategy::Flat(_)));
    assert!(matches!(streak, ScoringStrategy::Streak(_)));
    for _ in 0..3 {
        flat.update_score(&[Win, Lose, Tie]);
        streak.update_score(&[Win, Lose, Tie]);
    }
    assert_eq!(flat.get_score(), [3, -3, 0]);
    assert_eq!(streak.get_score(), [6, 0, 0]);
}
