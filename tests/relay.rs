use uniform_logic::judger::{
    assemble_round_input, command_of, take_line, trim_line_end, JudgerAction, LogicCommand,
    Orchestrator, TransportError, BUFFER_SIZE,
};
use uniform_logic::machine::MAX_ROUND;
use uniform_logic::protocol::AgentStatus;

#[test]
fn trailing_newlines_and_nuls_are_trimmed() {
    let buf = b"abc\n\0\0\n".to_vec();
    assert_eq!(trim_line_end(&buf, buf.len()), b"abc".to_vec());
    assert_eq!(trim_line_end(&buf, 2), b"ab".to_vec());
    assert_eq!(trim_line_end(&b"\n\0".to_vec(), 2), Vec::<u8>::new());
}

#[test]
fn a_line_ends_at_the_first_newline() {
    let buf = b"{\"gesture\":\"Rock\"}\nrest\0\0".to_vec();
    assert_eq!(take_line(&buf, BUFFER_SIZE), Ok(b"{\"gesture\":\"Rock\"}".to_vec()));
}

#[test]
fn output_that_never_ends_its_line_is_unresponsive() {
    assert_eq!(take_line(&b"abc".to_vec(), BUFFER_SIZE), Err(TransportError::AgentUnresponsive));
    let mut buf = b"line".to_vec();
    buf.extend_from_slice(&[0u8; 6]);
    assert_eq!(take_line(&buf, BUFFER_SIZE), Err(TransportError::AgentUnresponsive));
}

#[test]
fn nul_padding_before_the_newline_is_trimmed() {
    let mut buf = b"line".to_vec();
    buf.extend_from_slice(&[0u8; 3]);
    buf.push(b'\n');
    assert_eq!(take_line(&buf, BUFFER_SIZE), Ok(b"line".to_vec()));
}

#[test]
fn empty_output_is_unresponsive() {
    assert_eq!(take_line(&Vec::new(), BUFFER_SIZE), Err(TransportError::AgentUnresponsive));
    assert_eq!(take_line(&b"\n".to_vec(), BUFFER_SIZE), Err(TransportError::AgentUnresponsive));
    assert_eq!(take_line(&vec![0u8; 10], BUFFER_SIZE), Err(TransportError::AgentUnresponsive));
}

#[test]
fn full_buffer_without_newline_is_too_long() {
    assert_eq!(take_line(&vec![b'x'; 8], 8), Err(TransportError::OutputTooLong));
    let mut buf = vec![b'x'; 7];
    buf.push(b'\n');
    assert_eq!(take_line(&buf, 8), Ok(vec![b'x'; 7]));
}

#[test]
fn replies_are_tagged_with_verdicts() {
    let input = assemble_round_input(
        Ok("a".to_owned()),
        Err(TransportError::OutputTooLong),
        Err(TransportError::AgentUnresponsive),
    );
    let entries: Vec<(String, AgentStatus, Option<String>)> =
        input.log.0.into_iter().map(|(n, m)| (n, m.verdict, m.response)).collect();
    assert_eq!(
        entries,
        vec![
            ("0".to_owned(), AgentStatus::OK, Some("a".to_owned())),
            ("1".to_owned(), AgentStatus::OLE, None),
            ("2".to_owned(), AgentStatus::UE, None),
        ]
    );
}

#[test]
fn commands_are_recognised() {
    assert_eq!(command_of(&"request".to_owned()), Some(LogicCommand::Request));
    assert_eq!(command_of(&"finish".to_owned()), Some(LogicCommand::Finish));
    assert_eq!(command_of(&"Finish".to_owned()), None);
    assert_eq!(command_of(&String::new()), None);
}

#[test]
fn finish_terminates_at_once() {
    let mut o = Orchestrator::new();
    assert_eq!(o.on_logic_message(LogicCommand::Request), JudgerAction::RelayRound);
    assert_eq!(o.on_logic_message(LogicCommand::Finish), JudgerAction::Terminate);
    assert_eq!(o.rounds_relayed(), 1);
}

#[test]
fn relay_stops_after_budget_plus_one() {
    let mut o = Orchestrator::new();
    for _ in 0..=MAX_ROUND {
        assert_eq!(o.on_logic_message(LogicCommand::Request), JudgerAction::RelayRound);
    }
    assert_eq!(o.rounds_relayed(), MAX_ROUND + 1);
    assert_eq!(o.on_logic_message(LogicCommand::Request), JudgerAction::Terminate);
}
