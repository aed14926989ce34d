//! The game rule: three gestures in, one outcome per player out.
use vstd::prelude::*;

verus! {

/// A move of one player.
#[derive(Debug, Clone, Copy, PartialEq, Eq, Structural)]
pub enum Gesture {
    Rock,
    Paper,
    Scissors,
}

/// The outcome of one round for one player.
#[derive(Debug, Clone, Copy, PartialEq, Eq, Structural)]
pub enum RoundResult {
    Win,
    Tie,
    Lose,
}

/// Whether gesture `a` beats gesture `b`.
pub open spec fn beats(a: Gesture, b: Gesture) -> bool {
    (a == Gesture::Rock && b == Gesture::Scissors) || (a == Gesture::Paper && b == Gesture::Rock)
        || (a == Gesture::Scissors && b == Gesture::Paper)
}

/// Net value of one duel for the first player: +1 win, 0 tie, -1 loss.
pub open spec fn duel_value(a: Gesture, b: Gesture) -> int {
    if beats(a, b) {
        1
    } else if beats(b, a) {
        -1
    } else {
        0
    }
}

/// The outcome whose sign is the sign of `n`.
pub open spec fn result_of_sign(n: int) -> RoundResult {
    if n > 0 {
        RoundResult::Win
    } else if n == 0 {
        RoundResult::Tie
    } else {
        RoundResult::Lose
    }
}

/// Outcome of one duel.
pub open spec fn duel(a: Gesture, b: Gesture) -> RoundResult {
    result_of_sign(duel_value(a, b))
}

/// Outcome of `me` against two opponents: the sign of the sum of both duels.
pub open spec fn versus_two(me: Gesture, op1: Gesture, op2: Gesture) -> RoundResult {
    result_of_sign(duel_value(me, op1) + duel_value(me, op2))
}

/// Outcome of every player of a three-player round.
pub open spec fn round_outcome(p: [Gesture; 3]) -> [RoundResult; 3] {
    [versus_two(p[0], p[1], p[2]), versus_two(p[1], p[0], p[2]), versus_two(p[2], p[0], p[1])]
}

fn judge2(a: Gesture, b: Gesture) -> (r: RoundResult)
    ensures
        r == duel(a, b),
{
    match a {
        Gesture::Rock => match b {
            Gesture::Rock => RoundResult::Tie,
            Gesture::Paper => RoundResult::Lose,
            Gesture::Scissors => RoundResult::Win,
        },
        Gesture::Paper => match b {
            Gesture::Rock => RoundResult::Win,
            Gesture::Paper => RoundResult::Tie,
            Gesture::Scissors => RoundResult::Lose,
        },
        Gesture::Scissors => match b {
            Gesture::Paper => RoundResult::Win,
            Gesture::Rock => RoundResult::Lose,
            Gesture::Scissors => RoundResult::Tie,
        },
    }
}

fn judge3(me: Gesture, op1: Gesture, op2: Gesture) -> (r: RoundResult)
    ensures
        r == versus_two(me, op1, op2),
{
    let mut score: i8 = 0;
    let ops = [op1, op2];
    let mut k: usize = 0;
    while k < 2
        invariant
            0 <= k <= 2,
            ops@ == seq![op1, op2],
            score == (if k >= 1 { duel_value(me, op1) } else { 0 }) + (if k >= 2 {
                duel_value(me, op2)
            } else {
                0
            }),
        decreases 2 - k,
    {
        match judge2(me, ops[k]) {
            RoundResult::Win => score = score + 1,
            RoundResult::Tie => (),
            RoundResult::Lose => score = score - 1,
        }
        k = k + 1;
    }
    if score > 0 {
        RoundResult::Win
    } else if score == 0 {
        RoundResult::Tie
    } else {
        RoundResult::Lose
    }
}

/// Judges one round: each player plays a duel against each of the two others,
/// and wins, ties or loses by the sign of its net duel count.
pub fn judge_round(players: [Gesture; 3]) -> (r: [RoundResult; 3])
    ensures
        r == round_outcome(players),
{
    [
        judge3(players[0], players[1], players[2]),
        judge3(players[1], players[0], players[2]),
        judge3(players[2], players[0], players[1]),
    ]
}

} // verus!
