//! Scoring strategies: per-agent score accumulators updated once per round.
use crate::logic::RoundResult;
use vstd::prelude::*;

verus! {

/// Number of rounds from a fresh accumulator for which every strategy's
/// counters are proved to stay inside their integer types.
pub const SCORE_ROUND_LIMIT: u32 = 65535;

/// A per-agent score accumulator for three agents.
pub trait Scoring: Sized {
    /// The current score of each agent.
    spec fn scores(&self) -> [i32; 3];

    /// The score change that agent `i` gets from `result` in the current state.
    spec fn delta(&self, i: int, result: RoundResult) -> int;

    /// `next` is the state that follows `self` after one round of `results`,
    /// private counters included.
    spec fn step(&self, results: [RoundResult; 3], next: Self) -> bool;

    /// One update with `results` keeps every counter inside its integer type.
    spec fn can_update(&self, results: [RoundResult; 3]) -> bool;

    /// The state is reachable from a fresh accumulator in at most `rounds` updates.
    spec fn bounded(&self, rounds: nat) -> bool;

    /// A state reachable in `rounds < SCORE_ROUND_LIMIT` updates can take one
    /// more, and what follows is reachable in `rounds + 1`.
    proof fn lemma_bounded_step(&self, results: [RoundResult; 3], next: Self, rounds: nat)
        requires
            self.bounded(rounds),
            rounds < SCORE_ROUND_LIMIT,
        ensures
            self.can_update(results),
            self.step(results, next) ==> next.bounded(rounds + 1),
    ;

    /// Returns the current score of each agent.
    fn get_score(&self) -> (s: [i32; 3])
        ensures
            s == self.scores(),
    ;

    /// Applies one round of outcomes: each agent's score moves by the delta of
    /// its own outcome.
    fn update_score(&mut self, round_result: &[RoundResult; 3])
        requires
            old(self).can_update(*round_result),
        ensures
            old(self).step(*round_result, *final(self)),
            forall|i: int|
                0 <= i < 3 ==> final(self).scores()[i] == old(self).scores()[i] + old(self).delta(
                    i,
                    round_result[i],
                ),
    ;
}

/// Score change under flat scoring: +1 for a win, 0 for a tie, -1 for a loss.
pub open spec fn flat_delta(r: RoundResult) -> int {
    match r {
        RoundResult::Win => 1,
        RoundResult::Tie => 0,
        RoundResult::Lose => -1,
    }
}

/// Flat scoring: a win adds one point, a loss takes one away.
pub struct NormalScoring {
    score: [i32; 3],
}

impl NormalScoring {
    /// The score of each agent.
    pub closed spec fn score_of(&self) -> [i32; 3] {
        self.score
    }

    /// A fresh accumulator: every score is zero.
    pub fn new() -> (s: Self)
        ensures
            s.scores() == [0i32, 0i32, 0i32],
            s.bounded(0),
    {
        NormalScoring { score: [0; 3] }
    }
}

fn flat_update(score: i32, r: RoundResult) -> (s: i32)
    requires
        i32::MIN <= score + flat_delta(r) <= i32::MAX,
    ensures
        s == score + flat_delta(r),
{
    match r {
        RoundResult::Win => score + 1,
        RoundResult::Tie => score,
        RoundResult::Lose => score - 1,
    }
}

impl Scoring for NormalScoring {
    open spec fn scores(&self) -> [i32; 3] {
        self.score_of()
    }

    open spec fn delta(&self, i: int, result: RoundResult) -> int {
        flat_delta(result)
    }

    open spec fn step(&self, results: [RoundResult; 3], next: Self) -> bool {
        forall|i: int|
            0 <= i < 3 ==> next.score_of()[i] == self.score_of()[i] + flat_delta(#[trigger] results[i])
    }

    open spec fn can_update(&self, results: [RoundResult; 3]) -> bool {
        forall|i: int|
            0 <= i < 3 ==> i32::MIN <= self.score_of()[i] + flat_delta(#[trigger] results[i])
                <= i32::MAX
    }

    open spec fn bounded(&self, rounds: nat) -> bool {
        forall|i: int| 0 <= i < 3 ==> -rounds <= #[trigger] self.score_of()[i] <= rounds
    }

    proof fn lemma_bounded_step(&self, results: [RoundResult; 3], next: Self, rounds: nat) {
        assert forall|i: int| 0 <= i < 3 implies i32::MIN <= self.score_of()[i] + flat_delta(
            #[trigger] results[i],
        ) <= i32::MAX by {
            assert(-rounds <= self.score_of()[i] <= rounds);
        }
        if self.step(results, next) {
            assert forall|i: int| 0 <= i < 3 implies -(rounds + 1) <= #[trigger] next.score_of()[i]
                <= rounds + 1 by {
                assert(-rounds <= self.score_of()[i] <= rounds);
                assert(next.score_of()[i] == self.score_of()[i] + flat_delta(results[i]));
            }
        }
    }

    fn get_score(&self) -> (s: [i32; 3]) {
        self.score
    }

    fn update_score(&mut self, round_result: &[RoundResult; 3]) {
        let r = *round_result;
        proof {
            assert(i32::MIN <= self.score[0] + flat_delta(r[0]) <= i32::MAX);
            assert(i32::MIN <= self.score[1] + flat_delta(r[1]) <= i32::MAX);
            assert(i32::MIN <= self.score[2] + flat_delta(r[2]) <= i32::MAX);
        }
        let s0 = flat_update(self.score[0], r[0]);
        let s1 = flat_update(self.score[1], r[1]);
        let s2 = flat_update(self.score[2], r[2]);
        self.score = [s0, s1, s2];
    }
}

/// Score change under streak scoring for an agent whose current streak is
/// `combo`: a win scores the lengthened streak, a tie or a loss scores nothing.
pub open spec fn streak_delta(combo: int, r: RoundResult) -> int {
    match r {
        RoundResult::Win => combo + 1,
        _ => 0,
    }
}

/// Streak counter after outcome `r`: a win lengthens it, a tie keeps it, a
/// loss resets it.
pub open spec fn streak_next(combo: int, r: RoundResult) -> int {
    match r {
        RoundResult::Win => combo + 1,
        RoundResult::Tie => combo,
        RoundResult::Lose => 0,
    }
}

/// Streak scoring: the k-th consecutive win scores k points; a loss ends
/// the streak without a penalty.
pub struct ComboScoring {
    score: [i32; 3],
    combo: [u32; 3],
}

impl ComboScoring {
    /// The score of each agent.
    pub closed spec fn score_of(&self) -> [i32; 3] {
        self.score
    }

    /// The consecutive-win counter of each agent.
    pub closed spec fn combo_of(&self) -> [u32; 3] {
        self.combo
    }

    /// A fresh accumulator: every score and every streak is zero.
    pub fn new() -> (s: Self)
        ensures
            s.scores() == [0i32, 0i32, 0i32],
            s.combo_of() == [0u32, 0u32, 0u32],
            s.bounded(0),
    {
        ComboScoring { score: [0; 3], combo: [0; 3] }
    }
}

fn streak_update(score: i32, combo: u32, r: RoundResult) -> (out: (i32, u32))
    requires
        r == RoundResult::Win ==> combo + 1 <= i32::MAX && score + combo + 1 <= i32::MAX,
    ensures
        out.0 == score + streak_delta(combo as int, r),
        out.1 == streak_next(combo as int, r),
{
    match r {
        RoundResult::Win => {
            let c = combo + 1;
            (score + c as i32, c)
        },
        RoundResult::Tie => (score, combo),
        RoundResult::Lose => (score, 0),
    }
}

proof fn lemma_triangle_step(n: nat)
    requires
        n < SCORE_ROUND_LIMIT,
    ensures
        n * (n + 1) / 2 + n + 1 == (n + 1) * (n + 2) / 2,
        (n + 1) * (n + 2) / 2 <= i32::MAX,
        0 <= n * (n + 1) / 2,
{
    assert(n * (n + 1) / 2 + n + 1 == (n + 1) * (n + 2) / 2) by (nonlinear_arith);
    assert((n + 1) * (n + 2) <= 65535 * 65536) by (nonlinear_arith)
        requires
            n + 1 <= 65535,
    ;
    assert(0 <= n * (n + 1)) by (nonlinear_arith);
}

impl Scoring for ComboScoring {
    open spec fn scores(&self) -> [i32; 3] {
        self.score_of()
    }

    open spec fn delta(&self, i: int, result: RoundResult) -> int {
        streak_delta(self.combo_of()[i] as int, result)
    }

    open spec fn step(&self, results: [RoundResult; 3], next: Self) -> bool {
        forall|i: int|
            0 <= i < 3 ==> {
                &&& next.score_of()[i] == self.score_of()[i] + streak_delta(
                    self.combo_of()[i] as int,
                    #[trigger] results[i],
                )
                &&& next.combo_of()[i] == streak_next(self.combo_of()[i] as int, results[i])
            }
    }

    open spec fn can_update(&self, results: [RoundResult; 3]) -> bool {
        forall|i: int|
            0 <= i < 3 && #[trigger] results[i] == RoundResult::Win ==> self.combo_of()[i] + 1
                <= i32::MAX && self.score_of()[i] + self.combo_of()[i] + 1 <= i32::MAX
    }

    open spec fn bounded(&self, rounds: nat) -> bool {
        forall|i: int|
            0 <= i < 3 ==> 0 <= #[trigger] self.combo_of()[i] <= rounds && 0 <= self.score_of()[i]
                <= rounds * (rounds + 1) / 2
    }

    proof fn lemma_bounded_step(&self, results: [RoundResult; 3], next: Self, rounds: nat) {
        lemma_triangle_step(rounds);
        assert forall|i: int| 0 <= i < 3 && #[trigger] results[i] == RoundResult::Win implies self.combo_of()[i] + 1
            <= i32::MAX && self.score_of()[i] + self.combo_of()[i] + 1 <= i32::MAX by {
            assert(0 <= self.combo_of()[i] <= rounds);
        }
        if self.step(results, next) {
            assert forall|i: int| 0 <= i < 3 implies 0 <= #[trigger] next.combo_of()[i] <= rounds + 1
                && 0 <= next.score_of()[i] <= (rounds + 1) * (rounds + 1 + 1) / 2 by {
                assert(0 <= self.combo_of()[i] <= rounds);
                assert(next.combo_of()[i] == streak_next(self.combo_of()[i] as int, results[i]));
                assert(next.score_of()[i] == self.score_of()[i] + streak_delta(
                    self.combo_of()[i] as int,
                    results[i],
                ));
            }
        }
    }

    fn get_score(&self) -> (s: [i32; 3]) {
        self.score
    }

    fn update_score(&mut self, round_result: &[RoundResult; 3]) {
        let r = *round_result;
        let (s0, c0) = streak_update(self.score[0], self.combo[0], r[0]);
        let (s1, c1) = streak_update(self.score[1], self.combo[1], r[1]);
        let (s2, c2) = streak_update(self.score[2], self.combo[2], r[2]);
        self.score = [s0, s1, s2];
        self.combo = [c0, c1, c2];
    }
}

/// The scoring strategy of a match, chosen once at its start.
pub enum ScoringStrategy {
    Flat(NormalScoring),
    Streak(ComboScoring),
}

impl ScoringStrategy {
    /// A fresh accumulator: streak scoring when `use_combo`, flat scoring otherwise.
    pub fn select(use_combo: bool) -> (s: Self)
        ensures
            s.is_streak() == use_combo,
            s.scores() == [0i32, 0i32, 0i32],
            s.bounded(0),
    {
        if use_combo {
            ScoringStrategy::Streak(ComboScoring::new())
        } else {
            ScoringStrategy::Flat(NormalScoring::new())
        }
    }

    /// Whether this is streak scoring.
    pub open spec fn is_streak(&self) -> bool {
        self is Streak
    }
}

impl Scoring for ScoringStrategy {
    open spec fn scores(&self) -> [i32; 3] {
        match self {
            ScoringStrategy::Flat(s) => s.scores(),
            ScoringStrategy::Streak(s) => s.scores(),
        }
    }

    open spec fn delta(&self, i: int, result: RoundResult) -> int {
        match self {
            ScoringStrategy::Flat(s) => s.delta(i, result),
            ScoringStrategy::Streak(s) => s.delta(i, result),
        }
    }

    open spec fn step(&self, results: [RoundResult; 3], next: Self) -> bool {
        match (self, next) {
            (ScoringStrategy::Flat(s), ScoringStrategy::Flat(t)) => s.step(results, t),
            (ScoringStrategy::Streak(s), ScoringStrategy::Streak(t)) => s.step(results, t),
            _ => false,
        }
    }

    open spec fn can_update(&self, results: [RoundResult; 3]) -> bool {
        match self {
            ScoringStrategy::Flat(s) => s.can_update(results),
            ScoringStrategy::Streak(s) => s.can_update(results),
        }
    }

    open spec fn bounded(&self, rounds: nat) -> bool {
        match self {
            ScoringStrategy::Flat(s) => s.bounded(rounds),
            ScoringStrategy::Streak(s) => s.bounded(rounds),
        }
    }

    proof fn lemma_bounded_step(&self, results: [RoundResult; 3], next: Self, rounds: nat) {
        match (self, next) {
            (ScoringStrategy::Flat(s), ScoringStrategy::Flat(t)) => s.lemma_bounded_step(
                results,
                t,
                rounds,
            ),
            (ScoringStrategy::Streak(s), ScoringStrategy::Streak(t)) => s.lemma_bounded_step(
                results,
                t,
                rounds,
            ),
            (ScoringStrategy::Flat(s), _) => s.lemma_bounded_step(results, *s, rounds),
            (ScoringStrategy::Streak(s), _) => s.lemma_bounded_step(results, *s, rounds),
        }
    }

    fn get_score(&self) -> (s: [i32; 3]) {
        match self {
            ScoringStrategy::Flat(s) => s.get_score(),
            ScoringStrategy::Streak(s) => s.get_score(),
        }
    }

    fn update_score(&mut self, round_result: &[RoundResult; 3]) {
        match self {
            ScoringStrategy::Flat(s) => s.update_score(round_result),
            ScoringStrategy::Streak(s) => s.update_score(round_result),
        }
    }
}

/// Under flat scoring a round in which every agent ties leaves every score
/// unchanged.
pub proof fn lemma_flat_all_tie_keeps_scores(s: NormalScoring, next: NormalScoring)
    requires
        s.step([RoundResult::Tie, RoundResult::Tie, RoundResult::Tie], next),
    ensures
        next.scores()@ == s.scores()@,
{
    let r = [RoundResult::Tie, RoundResult::Tie, RoundResult::Tie];
    assert(r[0] == RoundResult::Tie && r[1] == RoundResult::Tie && r[2] == RoundResult::Tie);
    assert(next.scores()@ =~= s.scores()@);
}

/// Under streak scoring, a run of `k` consecutive wins of agent `i` that
/// starts with an empty streak raises that agent's score by k(k+1)/2 and
/// leaves its streak at `k`. `states[j + 1]` follows `states[j]` after
/// `rounds[j]`.
pub proof fn lemma_streak_run(states: Seq<ComboScoring>, rounds: Seq<[RoundResult; 3]>, i: int)
    requires
        0 <= i < 3,
        states.len() == rounds.len() + 1,
        states[0].combo_of()[i] == 0,
        forall|j: int|
            0 <= j < rounds.len() ==> #[trigger] states[j].step(rounds[j], states[j + 1]),
        forall|j: int| 0 <= j < rounds.len() ==> #[trigger] rounds[j][i] == RoundResult::Win,
    ensures
        states.last().score_of()[i] == states[0].score_of()[i] + rounds.len() * (rounds.len() + 1)
            / 2,
        states.last().combo_of()[i] == rounds.len(),
    decreases rounds.len(),
{
    let k = rounds.len();
    if k > 0 {
        let prev_states = states.subrange(0, k as int);
        let prev_rounds = rounds.subrange(0, k - 1);
        assert forall|j: int| 0 <= j < prev_rounds.len() implies #[trigger] prev_states[j].step(
            prev_rounds[j],
            prev_states[j + 1],
        ) by {
            assert(states[j].step(rounds[j], states[j + 1]));
        }
        assert forall|j: int| 0 <= j < prev_rounds.len() implies #[trigger] prev_rounds[j][i]
            == RoundResult::Win by {
            assert(rounds[j][i] == RoundResult::Win);
        }
        lemma_streak_run(prev_states, prev_rounds, i);
        assert(states[k - 1].step(rounds[k - 1], states[k as int]));
        assert(rounds[k - 1][i] == RoundResult::Win);
        let m = (k - 1) as nat;
        assert(prev_states.last() == states[k - 1]);
        assert(states[k - 1].combo_of()[i] == m);
        assert(states[k as int].score_of()[i] == states[k - 1].score_of()[i] + m + 1);
        assert(m * (m + 1) / 2 + m + 1 == (m + 1) * (m + 2) / 2) by (nonlinear_arith);
        assert(states.last() == states[k as int]);
        assert(prev_states[0] == states[0]);
        assert(prev_rounds.len() == m);
        assert(states[k - 1].score_of()[i] == states[0].score_of()[i] + m * (m + 1) / 2);
        assert((m + 1) * (m + 2) / 2 == k * (k + 1) / 2);
    } else {
        assert(states.last() == states[0]);
        assert(k * (k + 1) / 2 == 0);
    }
}

/// Under streak scoring, a loss resets the agent's streak to zero and leaves
/// its score unchanged.
pub proof fn lemma_streak_loss_resets(
    s: ComboScoring,
    results: [RoundResult; 3],
    next: ComboScoring,
    i: int,
)
    requires
        0 <= i < 3,
        s.step(results, next),
        results[i] == RoundResult::Lose,
    ensures
        next.combo_of()[i] == 0,
        next.score_of()[i] == s.score_of()[i],
{
}

/// Under flat scoring the totals after two rounds do not depend on the order
/// in which the two rounds are played.
pub proof fn lemma_flat_order_free(
    s: NormalScoring,
    first: [RoundResult; 3],
    second: [RoundResult; 3],
    a: NormalScoring,
    b: NormalScoring,
    c: NormalScoring,
    d: NormalScoring,
)
    requires
        s.step(first, a),
        a.step(second, b),
        s.step(second, c),
        c.step(first, d),
    ensures
        b.scores()@ == d.scores()@,
{
    assert forall|i: int| 0 <= i < 3 implies b.scores()@[i] == d.scores()@[i] by {
        assert(a.score_of()[i] == s.score_of()[i] + flat_delta(first[i]));
        assert(b.score_of()[i] == a.score_of()[i] + flat_delta(second[i]));
        assert(c.score_of()[i] == s.score_of()[i] + flat_delta(second[i]));
        assert(d.score_of()[i] == c.score_of()[i] + flat_delta(first[i]));
    }
    assert(b.scores()@ =~= d.scores()@);
}

/// Under streak scoring, a win right after a loss scores exactly one point.
pub proof fn lemma_streak_restarts_after_loss(
    s: ComboScoring,
    lost: [RoundResult; 3],
    t: ComboScoring,
    won: [RoundResult; 3],
    u: ComboScoring,
    i: int,
)
    requires
        0 <= i < 3,
        s.step(lost, t),
        lost[i] == RoundResult::Lose,
        t.step(won, u),
        won[i] == RoundResult::Win,
    ensures
        u.score_of()[i] == t.score_of()[i] + 1,
        u.combo_of()[i] == 1,
{
    lemma_streak_loss_resets(s, lost, t, i);
}

} // verus!
