use uniform_logic::agent::{gesture_of_draw, random_gesture};
use uniform_logic::logic::{judge_round, Gesture, RoundResult};

use Gesture::{Paper, Rock, Scissors};
use RoundResult::{Lose, Tie, Win};

#[test]
fn all_same_gesture_is_a_three_way_tie() {
    for g in [Rock, Paper, Scissors] {
        assert_eq!(judge_round([g, g, g]), [Tie, Tie, Tie]);
    }
}

#[test]
fn one_of_each_gesture_is_a_three_way_tie() {
    assert_eq!(judge_round([Rock, Paper, Scissors]), [Tie, Tie, Tie]);
    assert_eq!(judge_round([Scissors, Rock, Paper]), [Tie, Tie, Tie]);
}

#[test]
fn two_rocks_beat_scissors() {
    assert_eq!(judge_round([Rock, Scissors, Rock]), [Win, Lose, Win]);
}

#[test]
fn lone_winner_against_two_losers() {
    assert_eq!(judge_round([Paper, Rock, Rock]), [Win, Lose, Lose]);
    assert_eq!(judge_round([Scissors, Scissors, Paper]), [Win, Win, Lose]);
}

#[test]
fn win_and_tie_nets_a_win() {
    // Rock ties Rock and beats Scissors; Scissors loses twice.
    assert_eq!(judge_round([Rock, Rock, Scissors]), [Win, Win, Lose]);
}

#[test]
fn draws_map_to_gestures_by_remainder() {
    assert_eq!(gesture_of_draw(0), Rock);
    assert_eq!(gesture_of_draw(1), Scissors);
    assert_eq!(gesture_of_draw(2), Paper);
    assert_eq!(gesture_of_draw(3), Rock);
    assert_eq!(gesture_of_draw(usize::MAX), Rock);
}

#[test]
fn random_gesture_is_a_gesture() {
    for _ in 0..20 {
        let g = random_gesture();
        assert!(g == Rock || g == Paper || g == Scissors);
    }
}
