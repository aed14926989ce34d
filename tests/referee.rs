use uniform_logic::io_types::{InitData, Response};
use uniform_logic::logic::{Gesture, RoundResult};
use uniform_logic::machine::{agent_name_of, RoundMachine, MAX_ROUND};
use uniform_logic::protocol::{
    AgentMessage, AgentStatus, FinishOutput, FinishState, RoundInput, SerializableMap,
};
use uniform_logic::io_types::Display;

use Gesture::{Paper, Rock, Scissors};

fn round_input(entries: [(AgentStatus, Gesture); 3]) -> RoundInput<Option<Response>> {
    let mut log = SerializableMap::new();
    for (i, (verdict, gesture)) in entries.into_iter().enumerate() {
        log.insert(agent_name_of(i), AgentMessage { verdict, response: Some(Response { gesture }) });
    }
    RoundInput { log }
}

fn ok_round(moves: [Gesture; 3]) -> RoundInput<Option<Response>> {
    round_input([
        (AgentStatus::OK, moves[0]),
        (AgentStatus::OK, moves[1]),
        (AgentStatus::OK, moves[2]),
    ])
}

fn finish_entries(out: &FinishOutput<Display>) -> Vec<(String, i32, FinishState)> {
    out.content.0.iter().map(|(n, m)| (n.clone(), m.score, m.state)).collect()
}

#[test]
fn first_request_is_neutral() {
    for combo in [false, true] {
        let m = RoundMachine::start(&InitData { use_combo_scoring: combo });
        assert!(!m.is_finished());
        assert_eq!(m.rounds_played(), 0);
        let out = m.round_output();
        let names: Vec<&str> = out.content.0.iter().map(|(n, _)| n.as_str()).collect();
        assert_eq!(names, vec!["0", "1", "2"]);
        for (_, req) in &out.content.0 {
            assert_eq!(req.last_gestures, [Rock, Rock, Rock]);
            assert_eq!(req.last_result, [RoundResult::Tie; 3]);
            assert_eq!(req.total_scores, [0, 0, 0]);
        }
        assert_eq!(out.display.total_scores, [0, 0, 0]);
        assert_eq!(out.display.last_gestures, [Rock, Rock, Rock]);
    }
}

#[test]
fn three_round_flat_scores_sum() {
    let mut m = RoundMachine::start(&InitData { use_combo_scoring: false });
    // outcomes per round: Win/Win/Lose, Win/Lose/Lose, Tie/Tie/Tie
    let rounds = [[Rock, Rock, Scissors], [Paper, Rock, Rock], [Rock, Paper, Scissors]];
    for moves in rounds {
        assert!(m.handle_round(&ok_round(moves)).is_none());
    }
    // player 0: 1 + 1 + 0, player 1: 1 - 1 + 0, player 2: -1 - 1 + 0
    assert_eq!(m.total_scores(), [2, 0, -2]);
    assert_eq!(m.rounds_played(), 3);
    let req = m.request();
    assert_eq!(req.last_gestures, [Rock, Paper, Scissors]);
    assert_eq!(req.total_scores, [2, 0, -2]);
}

#[test]
fn failed_agent_ends_match_with_pre_round_scores() {
    let mut m = RoundMachine::start(&InitData { use_combo_scoring: false });
    assert!(m.handle_round(&ok_round([Paper, Rock, Rock])).is_none());
    assert_eq!(m.total_scores(), [1, -1, -1]);
    let input = round_input([
        (AgentStatus::OK, Scissors),
        (AgentStatus::TLE, Rock),
        (AgentStatus::OK, Rock),
    ]);
    let out = m.handle_round(&input).expect("the match ends");
    assert!(m.is_finished());
    assert_eq!(m.rounds_played(), 1);
    assert_eq!(
        finish_entries(&out),
        vec![
            ("0".to_owned(), 1, FinishState::OK),
            ("1".to_owned(), 0, FinishState::FAIL),
            ("2".to_owned(), -1, FinishState::OK),
        ]
    );
    assert_eq!(out.display.total_scores, [1, -1, -1]);
}

#[test]
fn every_failed_verdict_is_a_fail() {
    let verdicts = [
        AgentStatus::RE,
        AgentStatus::TLE,
        AgentStatus::MLE,
        AgentStatus::OLE,
        AgentStatus::STLE,
        AgentStatus::EXIT,
        AgentStatus::UE,
        AgentStatus::CANCEL,
        AgentStatus::IA,
    ];
    for v in verdicts {
        let mut m = RoundMachine::start(&InitData { use_combo_scoring: true });
        let out = m
            .handle_round(&round_input([(v, Rock), (v, Rock), (AgentStatus::OK, Rock)]))
            .expect("the match ends");
        assert_eq!(
            finish_entries(&out),
            vec![
                ("0".to_owned(), 0, FinishState::FAIL),
                ("1".to_owned(), 0, FinishState::FAIL),
                ("2".to_owned(), 0, FinishState::OK),
            ]
        );
    }
}

#[test]
fn match_ends_after_the_round_budget() {
    let mut m = RoundMachine::start(&InitData { use_combo_scoring: true });
    for round in 1..MAX_ROUND {
        assert!(m.handle_round(&ok_round([Rock, Rock, Scissors])).is_none());
        assert_eq!(m.rounds_played(), round);
        assert!(!m.is_finished());
    }
    let out = m.handle_round(&ok_round([Rock, Rock, Scissors])).expect("the budget is spent");
    assert!(m.is_finished());
    assert_eq!(m.rounds_played(), MAX_ROUND);
    let n = MAX_ROUND as i32;
    let top = n * (n + 1) / 2;
    assert_eq!(
        finish_entries(&out),
        vec![
            ("0".to_owned(), top, FinishState::OK),
            ("1".to_owned(), top, FinishState::OK),
            ("2".to_owned(), 0, FinishState::OK),
        ]
    );
    assert_eq!(out.display.total_scores, [top, top, 0]);
    assert_eq!(out.display.last_gestures, [Rock, Rock, Scissors]);
}

#[test]
fn failed_agent_without_response_ends_match() {
    let mut m = RoundMachine::start(&InitData { use_combo_scoring: true });
    assert!(m.handle_round(&ok_round([Rock, Rock, Scissors])).is_none());
    let mut log = SerializableMap::new();
    log.insert(agent_name_of(2), AgentMessage { verdict: AgentStatus::OK, response: Some(Response { gesture: Paper }) });
    log.insert(agent_name_of(0), AgentMessage { verdict: AgentStatus::UE, response: None });
    log.insert(agent_name_of(1), AgentMessage { verdict: AgentStatus::OK, response: Some(Response { gesture: Rock }) });
    let out = m.handle_round(&RoundInput { log }).expect("the match ends");
    assert!(m.is_finished());
    assert_eq!(
        finish_entries(&out),
        vec![
            ("0".to_owned(), 0, FinishState::FAIL),
            ("1".to_owned(), 1, FinishState::OK),
            ("2".to_owned(), 0, FinishState::OK),
        ]
    );
}
