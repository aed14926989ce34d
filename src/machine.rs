//! The referee's round state machine: it starts from the init payload, emits
//! one request per round, takes the agents' verdict-tagged responses, scores
//! the round, and ends the match early on a failed agent or after the round
//! budget.
use crate::io_types::{display_for, Display, InitData, Request, Response};
use crate::logic::{judge_round, round_outcome, Gesture, RoundResult};
use crate::protocol::{
    AgentMessage, AgentStatus, FinishMessage, FinishOutput, FinishState, RoundInput, RoundOutput,
    SerializableMap,
};
use crate::score::{Scoring, ScoringStrategy, SCORE_ROUND_LIMIT};
use crate::sender::{FinishMessageSender, RoundMessageSender};
use vstd::prelude::*;

verus! {

/// Number of rounds of a match that no agent fails.
pub const MAX_ROUND: u32 = 512;

/// The name of agent `i` on the wire: its index in decimal.
pub open spec fn agent_name(i: int) -> Seq<char> {
    if i == 0 {
        seq!['0']
    } else if i == 1 {
        seq!['1']
    } else {
        seq!['2']
    }
}

/// The wire name of agent `i`.
pub fn agent_name_of(i: usize) -> (s: String)
    requires
        i < 3,
    ensures
        s@ == agent_name(i as int),
{
    if i == 0 {
        proof {
            reveal_strlit("0");
        }
        "0".to_owned()
    } else if i == 1 {
        proof {
            reveal_strlit("1");
        }
        "1".to_owned()
    } else {
        proof {
            reveal_strlit("2");
        }
        "2".to_owned()
    }
}

pub(crate) proof fn lemma_agent_names_distinct()
    ensures
        agent_name(0) != agent_name(1),
        agent_name(0) != agent_name(2),
        agent_name(1) != agent_name(2),
{
    assert(agent_name(0)[0] != agent_name(1)[0]);
    assert(agent_name(0)[0] != agent_name(2)[0]);
    assert(agent_name(1)[0] != agent_name(2)[0]);
}

/// The message of the entry with key `k` (meaningful when there is exactly one).
pub open spec fn entry_for<V>(entries: Seq<(String, V)>, k: Seq<char>) -> V {
    entries[choose|j: int| 0 <= j < entries.len() && (#[trigger] entries[j]).0@ == k].1
}

/// The round response log names exactly the three agents, once each, and
/// every agent whose verdict is `OK` carries a response.
pub open spec fn log_complete(log: SerializableMap<String, AgentMessage<Option<Response>>>) -> bool {
    &&& log.wf()
    &&& log.0@.len() == 3
    &&& forall|i: int| 0 <= i < 3 ==> log.has_key(#[trigger] agent_name(i))
    &&& forall|j: int|
        0 <= j < log.0@.len() && (#[trigger] log.0@[j]).1.verdict == AgentStatus::OK
            ==> log.0@[j].1.response is Some
}

/// The verdict of agent `i` in the log.
pub open spec fn verdict_in(log: SerializableMap<String, AgentMessage<Option<Response>>>, i: int) -> AgentStatus {
    entry_for(log.0@, agent_name(i)).verdict
}

/// The response of agent `i` in the log.
pub open spec fn response_in(
    log: SerializableMap<String, AgentMessage<Option<Response>>>,
    i: int,
) -> Option<Response> {
    entry_for(log.0@, agent_name(i)).response
}

/// The gesture of agent `i` in the log, for an agent that responded.
pub open spec fn gesture_in(log: SerializableMap<String, AgentMessage<Option<Response>>>, i: int) -> Gesture {
    response_in(log, i)->0.gesture
}

/// Every agent's verdict is `OK`.
pub open spec fn all_ok(log: SerializableMap<String, AgentMessage<Option<Response>>>) -> bool {
    forall|i: int| 0 <= i < 3 ==> verdict_in(log, i) == AgentStatus::OK
}

/// The gestures of the three agents in the log.
pub open spec fn gestures_in(log: SerializableMap<String, AgentMessage<Option<Response>>>) -> [Gesture; 3] {
    [gesture_in(log, 0), gesture_in(log, 1), gesture_in(log, 2)]
}

/// The finish entry of an agent after an early end: a failed agent gets zero
/// and `FAIL`, any other keeps `score` with `OK`.
pub open spec fn early_finish_entry(verdict: AgentStatus, score: i32) -> FinishMessage {
    if verdict == AgentStatus::OK {
        FinishMessage { score, state: FinishState::OK }
    } else {
        FinishMessage { score: 0, state: FinishState::FAIL }
    }
}

/// `entries` holds one entry per agent, in agent order, the `i`-th being `f(i)`.
pub open spec fn per_agent<V>(entries: Seq<(String, V)>, f: spec_fn(int) -> V) -> bool {
    &&& entries.len() == 3
    &&& forall|i: int| 0 <= i < 3 ==> (#[trigger] entries[i]).0@ == agent_name(i) && entries[i].1 == f(i)
}

fn agent_entry(log: &SerializableMap<String, AgentMessage<Option<Response>>>, i: usize) -> (r: (
    AgentStatus,
    Option<Response>,
))
    requires
        log_complete(*log),
        i < 3,
    ensures
        r.0 == verdict_in(*log, i as int),
        r.1 == response_in(*log, i as int),
        r.0 == AgentStatus::OK ==> r.1 is Some,
{
    let name = agent_name_of(i);
    match log.position(&name) {
        Some(p) => {
            proof {
                let k = agent_name(i as int);
                assert(log.0@[p as int].0@ == k);
                let j = choose|j: int| 0 <= j < log.0@.len() && (#[trigger] log.0@[j]).0@ == k;
                if j < p {
                    assert(log.0@[j].0@ != log.0@[p as int].0@);
                } else if j > p {
                    assert(log.0@[p as int].0@ != log.0@[j].0@);
                }
                assert(j == p);
            }
            let m = &log.0[p].1;
            (m.verdict, m.response)
        },
        None => {
            proof {
                assert(log.has_key(agent_name(i as int)));
                assert(false);
            }
            (AgentStatus::OK, None)
        },
    }
}

fn early_entry(verdict: AgentStatus, score: i32) -> (r: (i32, FinishState))
    ensures
        (FinishMessage { score: r.0, state: r.1 }) == early_finish_entry(verdict, score),
{
    if verdict == AgentStatus::OK {
        (score, FinishState::OK)
    } else {
        (0, FinishState::FAIL)
    }
}

fn finish_envelope(entries: [(i32, FinishState); 3], display: Display) -> (out: FinishOutput<
    Display,
>)
    ensures
        out.content.wf(),
        per_agent(
            out.content.0@,
            |i: int| FinishMessage { score: entries[i].0, state: entries[i].1 },
        ),
        out.display == display,
{
    let sender = FinishMessageSender::<Display>::new();
    let n0 = agent_name_of(0);
    let n1 = agent_name_of(1);
    let n2 = agent_name_of(2);
    proof {
        lemma_agent_names_distinct();
    }
    let sender = sender.send_agent(n0, entries[0].0, entries[0].1);
    let sender = sender.send_agent(n1, entries[1].0, entries[1].1);
    proof {
        assert(sender.content_of()[0].0@ == agent_name(0));
    }
    let sender = sender.send_agent(n2, entries[2].0, entries[2].1);
    proof {
        assert(sender.content_of()[0].0@ == agent_name(0));
        assert(sender.content_of()[1].0@ == agent_name(1));
    }
    let sender = sender.send_display(display);
    match sender.end() {
        Some(out) => out,
        None => {
            proof {
                assert(false);
            }
            FinishOutput { content: SerializableMap::new(), display }
        },
    }
}

/// The referee's state between rounds.
pub struct RoundMachine {
    scoring: ScoringStrategy,
    last_gestures: [Gesture; 3],
    last_result: [RoundResult; 3],
    round: u32,
    finished: bool,
}

impl RoundMachine {
    /// The scoring accumulator.
    pub closed spec fn scoring(&self) -> ScoringStrategy {
        self.scoring
    }

    /// The current total score of each agent.
    pub open spec fn scores(&self) -> [i32; 3] {
        self.scoring().scores()
    }

    /// The gestures of the last round played.
    pub closed spec fn last_gestures(&self) -> [Gesture; 3] {
        self.last_gestures
    }

    /// The outcomes of the last round played.
    pub closed spec fn last_result(&self) -> [RoundResult; 3] {
        self.last_result
    }

    /// The number of rounds played.
    pub closed spec fn round(&self) -> nat {
        self.round as nat
    }

    /// Whether the finish envelope has been emitted.
    pub closed spec fn finished(&self) -> bool {
        self.finished
    }

    /// The request of the next round, built from the last round and the scores.
    pub open spec fn context(&self) -> Request {
        Request {
            last_gestures: self.last_gestures(),
            last_result: self.last_result(),
            total_scores: self.scores(),
        }
    }

    /// The machine's invariant: the round count stays within the budget, the
    /// budget is spent only in the finished state, and the scores stay in the
    /// range reachable in the rounds played.
    pub closed spec fn wf(&self) -> bool {
        &&& self.round <= MAX_ROUND
        &&& self.round == MAX_ROUND ==> self.finished
        &&& self.scoring.bounded(self.round as nat)
    }

    /// `self` is the state that the init payload `init` starts: no round
    /// played, zero scores, every last gesture `Rock`, every last outcome a tie.
    pub open spec fn started_from(&self, init: InitData) -> bool {
        &&& self.wf()
        &&& !self.finished()
        &&& self.round() == 0
        &&& self.scoring().is_streak() == init.use_combo_scoring
        &&& self.scores() == [0i32, 0i32, 0i32]
        &&& self.last_gestures() == [Gesture::Rock, Gesture::Rock, Gesture::Rock]
        &&& self.last_result() == [RoundResult::Tie, RoundResult::Tie, RoundResult::Tie]
    }

    /// `out` is the round envelope of the current state: the context as request
    /// for every agent, and as display.
    pub open spec fn emits(&self, out: RoundOutput<Request, Display>) -> bool {
        &&& out.content.wf()
        &&& per_agent(out.content.0@, |i: int| self.context())
        &&& out.display == display_for(self.context())
    }

    /// `next` follows `self` after a round in which every agent answered `OK`
    /// with the gestures `moves`.
    pub open spec fn advances(&self, moves: [Gesture; 3], next: RoundMachine) -> bool {
        &&& !self.finished()
        &&& next.wf()
        &&& next.round() == self.round() + 1
        &&& next.finished() == (next.round() == MAX_ROUND)
        &&& next.last_gestures() == moves
        &&& next.last_result() == round_outcome(moves)
        &&& self.scoring().step(round_outcome(moves), next.scoring())
    }

    /// Leaves the init state: selects the scoring strategy and sets the neutral
    /// last-round context.
    pub fn start(init: &InitData) -> (m: Self)
        ensures
            m.started_from(*init),
    {
        RoundMachine {
            scoring: ScoringStrategy::select(init.use_combo_scoring),
            last_gestures: [Gesture::Rock, Gesture::Rock, Gesture::Rock],
            last_result: [RoundResult::Tie, RoundResult::Tie, RoundResult::Tie],
            round: 0,
            finished: false,
        }
    }

    /// Whether the finish envelope has been emitted.
    pub fn is_finished(&self) -> (b: bool)
        ensures
            b == self.finished(),
    {
        self.finished
    }

    /// The number of rounds played.
    pub fn rounds_played(&self) -> (n: u32)
        ensures
            n == self.round(),
    {
        self.round
    }

    /// The current total score of each agent.
    pub fn total_scores(&self) -> (s: [i32; 3])
        ensures
            s == self.scores(),
    {
        self.scoring.get_score()
    }

    /// The request of the next round.
    pub fn request(&self) -> (r: Request)
        ensures
            r == self.context(),
    {
        Request {
            last_gestures: self.last_gestures,
            last_result: self.last_result,
            total_scores: self.scoring.get_score(),
        }
    }

    /// The round envelope of the current state.
    pub fn round_output(&self) -> (out: RoundOutput<Request, Display>)
        requires
            !self.finished(),
        ensures
            self.emits(out),
    {
        let request = self.request();
        let sender = RoundMessageSender::<Request, Display>::new();
        let n0 = agent_name_of(0);
        let n1 = agent_name_of(1);
        let n2 = agent_name_of(2);
        proof {
            lemma_agent_names_distinct();
        }
        let sender = sender.send_agent(n0, request);
        let sender = sender.send_agent(n1, request);
        proof {
            assert(sender.content_of()[0].0@ == agent_name(0));
        }
        let sender = sender.send_agent(n2, request);
        proof {
            assert(sender.content_of()[0].0@ == agent_name(0));
            assert(sender.content_of()[1].0@ == agent_name(1));
        }
        let sender = sender.send_display(request.to_display());
        match sender.end() {
            Some(out) => out,
            None => {
                proof {
                    assert(false);
                }
                RoundOutput { content: SerializableMap::new(), display: request.to_display() }
            },
        }
    }

    /// Takes the verdict-tagged responses of one round. If some agent's
    /// verdict is not `OK` the match ends at once: failed agents get zero and
    /// `FAIL`, the others keep the score they had before this round. Otherwise
    /// the round is judged and scored, and after the last round of the budget
    /// the match ends with every agent's final score and `OK`. Returns the
    /// finish envelope when the match ends.
    pub fn handle_round(&mut self, input: &RoundInput<Option<Response>>) -> (r: Option<FinishOutput<Display>>)
        requires
            old(self).wf(),
            !old(self).finished(),
            log_complete(input.log),
        ensures
            final(self).wf(),
            !all_ok(input.log) ==> {
                &&& final(self).finished()
                &&& final(self).round() == old(self).round()
                &&& final(self).scoring() == old(self).scoring()
                &&& final(self).last_gestures() == old(self).last_gestures()
                &&& final(self).last_result() == old(self).last_result()
                &&& r is Some
                &&& r->0.content.wf()
                &&& per_agent(
                    r->0.content.0@,
                    |i: int| early_finish_entry(verdict_in(input.log, i), old(self).scores()[i]),
                )
                &&& r->0.display == display_for(old(self).context())
            },
            all_ok(input.log) ==> {
                &&& old(self).advances(gestures_in(input.log), *final(self))
                &&& (r is Some <==> final(self).finished())
                &&& r is Some ==> {
                    &&& r->0.content.wf()
                    &&& per_agent(
                        r->0.content.0@,
                        |i: int| FinishMessage { score: final(self).scores()[i], state: FinishState::OK },
                    )
                    &&& r->0.display == display_for(final(self).context())
                }
            },
    {
        let (v0, g0) = agent_entry(&input.log, 0);
        let (v1, g1) = agent_entry(&input.log, 1);
        let (v2, g2) = agent_entry(&input.log, 2);
        if v0 != AgentStatus::OK || v1 != AgentStatus::OK || v2 != AgentStatus::OK {
            let scores = self.scoring.get_score();
            let display = self.request().to_display();
            let e0 = early_entry(v0, scores[0]);
            let e1 = early_entry(v1, scores[1]);
            let e2 = early_entry(v2, scores[2]);
            let out = finish_envelope([e0, e1, e2], display);
            self.finished = true;
            proof {
                assert(!all_ok(input.log));
            }
            return Some(out);
        }
        proof {
            assert(all_ok(input.log));
        }
        let moves = match (g0, g1, g2) {
            (Some(a), Some(b), Some(c)) => [a.gesture, b.gesture, c.gesture],
            _ => {
                proof {
                    assert(false);
                }
                [Gesture::Rock, Gesture::Rock, Gesture::Rock]
            },
        };
        let results = judge_round(moves);
        let ghost before = self.scoring;
        proof {
            before.lemma_bounded_step(results, before, self.round as nat);
        }
        self.scoring.update_score(&results);
        proof {
            before.lemma_bounded_step(results, self.scoring, self.round as nat);
        }
        self.last_gestures = moves;
        self.last_result = results;
        self.round = self.round + 1;
        proof {
            assert(moves == gestures_in(input.log));
        }
        if self.round == MAX_ROUND {
            self.finished = true;
            let scores = self.scoring.get_score();
            let display = self.request().to_display();
            let out = finish_envelope(
                [(scores[0], FinishState::OK), (scores[1], FinishState::OK), (scores[2], FinishState::OK)],
                display,
            );
            Some(out)
        } else {
            None
        }
    }
}

/// The request of a round with no history: every last gesture `Rock`, every
/// last outcome a tie, every score zero.
pub open spec fn neutral_request() -> Request {
    Request {
        last_gestures: [Gesture::Rock, Gesture::Rock, Gesture::Rock],
        last_result: [RoundResult::Tie, RoundResult::Tie, RoundResult::Tie],
        total_scores: [0i32, 0i32, 0i32],
    }
}

/// Whatever the init payload, the machine it starts is in the round loop,
/// and its first round envelope asks every agent the neutral request and
/// displays it.
pub proof fn lemma_first_request_neutral(
    init: InitData,
    m: RoundMachine,
    out: RoundOutput<Request, Display>,
)
    requires
        m.started_from(init),
        m.emits(out),
    ensures
        !m.finished(),
        m.round() == 0,
        out.content.0@.len() == 3,
        forall|i: int| 0 <= i < 3 ==> (#[trigger] out.content.0@[i]).1 == neutral_request(),
        out.display == display_for(neutral_request()),
{
    assert(m.context() == neutral_request());
}

/// With no failed agent, every round played from the start moves the round
/// count by one; the match is finished exactly when `MAX_ROUND` rounds have
/// been played, and no round can follow. `states[j + 1]` follows `states[j]`
/// after the all-`OK` round with gestures `moves[j]`.
pub proof fn lemma_round_budget(
    init: InitData,
    states: Seq<RoundMachine>,
    moves: Seq<[Gesture; 3]>,
)
    requires
        states.len() == moves.len() + 1,
        states[0].started_from(init),
        forall|j: int| 0 <= j < moves.len() ==> #[trigger] states[j].advances(moves[j], states[j + 1]),
    ensures
        moves.len() <= MAX_ROUND,
        forall|j: int| 0 <= j < states.len() ==> (#[trigger] states[j]).round() == j,
        states.last().finished() <==> moves.len() == MAX_ROUND,
    decreases moves.len(),
{
    let k = moves.len();
    if k > 0 {
        let prev_states = states.subrange(0, k as int);
        let prev_moves = moves.subrange(0, k - 1);
        assert forall|j: int| 0 <= j < prev_moves.len() implies #[trigger] prev_states[j].advances(
            prev_moves[j],
            prev_states[j + 1],
        ) by {
            assert(states[j].advances(moves[j], states[j + 1]));
        }
        lemma_round_budget(init, prev_states, prev_moves);
        assert(prev_states.last() == states[k - 1]);
        assert(states[k - 1].advances(moves[k - 1], states[k as int]));
        assert forall|j: int| 0 <= j < states.len() implies (#[trigger] states[j]).round() == j by {
            if j < k {
                assert(prev_states[j] == states[j]);
            }
        }
    }
}

/// In a round where every agent answers `OK`, each agent's score moves by
/// exactly the delta that the active strategy gives to that agent's own
/// outcome of the round.
pub proof fn lemma_round_score_delta(m: RoundMachine, moves: [Gesture; 3], next: RoundMachine)
    requires
        m.advances(moves, next),
    ensures
        forall|i: int|
            0 <= i < 3 ==> #[trigger] next.scores()[i] == m.scores()[i] + m.scoring().delta(
                i,
                round_outcome(moves)[i],
            ),
{
    let results = round_outcome(moves);
    assert forall|i: int| 0 <= i < 3 implies #[trigger] next.scores()[i] == m.scores()[i]
        + m.scoring().delta(i, results[i]) by {
        match (m.scoring(), next.scoring()) {
            (ScoringStrategy::Flat(s), ScoringStrategy::Flat(t)) => {
                assert(s.step(results, t));
            },
            (ScoringStrategy::Streak(s), ScoringStrategy::Streak(t)) => {
                assert(s.step(results, t));
            },
            _ => {},
        }
    }
}

} // verus!
