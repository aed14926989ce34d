//! The orchestrator's decisions: framing what an agent wrote into one line,
//! tagging each agent's reply with a verdict, assembling the round response
//! for the referee, and deciding whether to relay another round.
use crate::machine::{agent_name, agent_name_of, per_agent, MAX_ROUND};
use crate::protocol::{AgentMessage, AgentStatus, RoundInput, SerializableMap};
use vstd::prelude::*;

verus! {

/// Longest line, newline included, taken from an agent.
pub const BUFFER_SIZE: usize = 500;

/// Longest line, newline included, taken from the referee, whose envelopes
/// carry a request for every agent and a display.
pub const LOGIC_LINE_LIMIT: usize = 4096;

/// Why no line could be taken from what a process wrote.
#[derive(Debug, Clone, Copy, PartialEq, Eq, Structural)]
pub enum TransportError {
    /// The process wrote no complete, non-empty line.
    AgentUnresponsive,
    /// The process filled the buffer without ending its line.
    OutputTooLong,
}

/// A byte that ends a line or pads the read buffer: newline or NUL.
pub open spec fn is_pad(b: u8) -> bool {
    b == 0u8 || b == 10u8
}

/// Length of `s` once its trailing newline and NUL bytes are dropped.
pub open spec fn trimmed_len(s: Seq<u8>) -> nat
    decreases s.len(),
{
    if s.len() > 0 && is_pad(s.last()) {
        trimmed_len(s.drop_last())
    } else {
        s.len()
    }
}

/// `s` without its trailing newline and NUL bytes.
pub open spec fn trim_end(s: Seq<u8>) -> Seq<u8> {
    s.subrange(0, trimmed_len(s) as int)
}

/// Position of the first newline of `s`, if any.
pub open spec fn first_newline(s: Seq<u8>) -> Option<int> {
    if exists|i: int| 0 <= i < s.len() && s[i] == 10u8 {
        Some(choose|i: int| 0 <= i < s.len() && s[i] == 10u8 && forall|j: int| 0 <= j < i ==> s[j] != 10u8)
    } else {
        None
    }
}

/// Drops the trailing newline and NUL bytes of `bytes[..end]`.
pub fn trim_line_end(bytes: &Vec<u8>, end: usize) -> (r: Vec<u8>)
    requires
        end <= bytes@.len(),
    ensures
        r@ == trim_end(bytes@.subrange(0, end as int)),
{
    let mut n: usize = end;
    while n > 0 && (bytes[n - 1] == 0u8 || bytes[n - 1] == 10u8)
        invariant
            n <= end <= bytes@.len(),
            trimmed_len(bytes@.subrange(0, n as int)) == trimmed_len(bytes@.subrange(0, end as int)),
        decreases n,
    {
        proof {
            assert(bytes@.subrange(0, n as int).drop_last() =~= bytes@.subrange(0, n - 1));
        }
        n = n - 1;
    }
    proof {
        let s = bytes@.subrange(0, n as int);
        assert(trimmed_len(s) == n);
    }
    let mut r: Vec<u8> = Vec::new();
    let mut k: usize = 0;
    while k < n
        invariant
            k <= n <= end <= bytes@.len(),
            r@ == bytes@.subrange(0, k as int),
        decreases n - k,
    {
        r.push(bytes[k]);
        proof {
            assert(r@ =~= bytes@.subrange(0, k + 1));
        }
        k = k + 1;
    }
    proof {
        assert(r@ =~= bytes@.subrange(0, end as int).subrange(0, n as int));
    }
    r
}

/// The line taken from the bytes `s` that a process wrote, read up to a
/// newline, `capacity` bytes or the end of its output: what precedes the first
/// newline, without trailing newline and NUL bytes. Output that fills the
/// capacity with no newline is too long; output that ended with no newline,
/// or an empty line, is no answer.
pub open spec fn line_of(s: Seq<u8>, capacity: int) -> Result<Seq<u8>, TransportError> {
    match first_newline(s) {
        Some(p) => {
            let t = trim_end(s.subrange(0, p));
            if t.len() == 0 {
                Err(TransportError::AgentUnresponsive)
            } else {
                Ok(t)
            }
        },
        None => {
            if s.len() >= capacity {
                Err(TransportError::OutputTooLong)
            } else {
                Err(TransportError::AgentUnresponsive)
            }
        },
    }
}

/// Takes one line from the bytes a process wrote, read up to a newline,
/// `capacity` bytes or the end of its output.
pub fn take_line(bytes: &Vec<u8>, capacity: usize) -> (r: Result<Vec<u8>, TransportError>)
    ensures
        match r {
            Ok(v) => line_of(bytes@, capacity as int) == Ok::<Seq<u8>, TransportError>(v@),
            Err(e) => line_of(bytes@, capacity as int) == Err::<Seq<u8>, TransportError>(e),
        },
{
    let mut p: usize = 0;
    while p < bytes.len() && bytes[p] != 10u8
        invariant
            p <= bytes@.len(),
            forall|j: int| 0 <= j < p ==> bytes@[j] != 10u8,
        decreases bytes@.len() - p,
    {
        p = p + 1;
    }
    if p < bytes.len() {
        proof {
            assert(exists|i: int| 0 <= i < bytes@.len() && bytes@[i] == 10u8) by {
                assert(bytes@[p as int] == 10u8);
            }
            let q = choose|i: int|
                0 <= i < bytes@.len() && bytes@[i] == 10u8 && forall|j: int|
                    0 <= j < i ==> bytes@[j] != 10u8;
            assert(exists|i: int|
                0 <= i < bytes@.len() && bytes@[i] == 10u8 && forall|j: int|
                    0 <= j < i ==> bytes@[j] != 10u8) by {
                assert(bytes@[p as int] == 10u8);
            }
            if q < p {
                assert(bytes@[q] != 10u8);
            } else if q > p {
                assert(bytes@[p as int] != 10u8);
            }
            assert(first_newline(bytes@) == Some(p as int));
        }
        let line = trim_line_end(bytes, p);
        if line.len() == 0 {
            Err(TransportError::AgentUnresponsive)
        } else {
            Ok(line)
        }
    } else {
        proof {
            assert(first_newline(bytes@) is None);
        }
        if bytes.len() >= capacity {
            Err(TransportError::OutputTooLong)
        } else {
            Err(TransportError::AgentUnresponsive)
        }
    }
}

/// The verdict the orchestrator records for a reply: `OK` for a line, `OLE`
/// for output that overran the buffer, `UE` when no line came.
pub open spec fn verdict_of<R>(reply: Result<R, TransportError>) -> AgentStatus {
    match reply {
        Ok(_) => AgentStatus::OK,
        Err(TransportError::OutputTooLong) => AgentStatus::OLE,
        Err(TransportError::AgentUnresponsive) => AgentStatus::UE,
    }
}

/// The verdict-tagged message for one agent's reply; a reply that failed
/// carries no response.
pub open spec fn message_of<R>(reply: Result<R, TransportError>) -> AgentMessage<Option<R>> {
    AgentMessage {
        verdict: verdict_of(reply),
        response: match reply {
            Ok(v) => Some(v),
            Err(_) => None,
        },
    }
}

fn tag_reply<R>(reply: Result<R, TransportError>) -> (m: AgentMessage<Option<R>>)
    ensures
        m == message_of(reply),
{
    match reply {
        Ok(v) => AgentMessage { verdict: AgentStatus::OK, response: Some(v) },
        Err(TransportError::OutputTooLong) => AgentMessage { verdict: AgentStatus::OLE, response: None },
        Err(TransportError::AgentUnresponsive) => AgentMessage {
            verdict: AgentStatus::UE,
            response: None,
        },
    }
}

/// The round response for the referee from the three agents' replies, in
/// agent order, each tagged with its verdict.
pub fn assemble_round_input<R>(
    r0: Result<R, TransportError>,
    r1: Result<R, TransportError>,
    r2: Result<R, TransportError>,
) -> (out: RoundInput<Option<R>>)
    ensures
        out.log.wf(),
        per_agent(out.log.0@, |i: int| message_of(seq![r0, r1, r2][i])),
{
    let ghost replies = seq![r0, r1, r2];
    let mut log: SerializableMap<String, AgentMessage<Option<R>>> = SerializableMap::new();
    proof {
        crate::machine::lemma_agent_names_distinct();
    }
    log.insert(agent_name_of(0), tag_reply(r0));
    log.insert(agent_name_of(1), tag_reply(r1));
    proof {
        assert(log.0@[0].0@ == agent_name(0));
    }
    log.insert(agent_name_of(2), tag_reply(r2));
    proof {
        assert(log.0@[0].0@ == agent_name(0));
        assert(log.0@[1].0@ == agent_name(1));
        assert(replies[0] == r0 && replies[1] == r1 && replies[2] == r2);
    }
    RoundInput { log }
}

/// The kind of envelope the referee sent, read from its `command` field.
#[derive(Debug, Clone, Copy, PartialEq, Eq, Structural)]
pub enum LogicCommand {
    Request,
    Finish,
}

/// Reads the `command` field of an envelope from the referee.
pub fn command_of(command: &String) -> (r: Option<LogicCommand>)
    ensures
        command@ == "request"@ ==> r == Some(LogicCommand::Request),
        command@ == "finish"@ ==> r == Some(LogicCommand::Finish),
        command@ != "request"@ && command@ != "finish"@ ==> r is None,
{
    proof {
        reveal_strlit("request");
        reveal_strlit("finish");
        assert("request"@[0] != "finish"@[0]);
    }
    if *command == "request".to_owned() {
        Some(LogicCommand::Request)
    } else if *command == "finish".to_owned() {
        Some(LogicCommand::Finish)
    } else {
        None
    }
}

/// What the orchestrator does after reading an envelope from the referee.
#[derive(Debug, Clone, Copy, PartialEq, Eq, Structural)]
pub enum JudgerAction {
    /// Signal every agent, collect the replies, send the round response.
    RelayRound,
    /// Stop relaying and terminate every process.
    Terminate,
}

/// The orchestrator's relay loop: at most `MAX_ROUND + 1` rounds are relayed.
pub struct Orchestrator {
    relayed: u32,
}

impl Orchestrator {
    /// The number of rounds relayed so far.
    pub closed spec fn relayed(&self) -> nat {
        self.relayed as nat
    }

    /// The relay count stays within the budget.
    pub open spec fn wf(&self) -> bool {
        self.relayed() <= MAX_ROUND + 1
    }

    /// An orchestrator that has relayed no round.
    pub fn new() -> (o: Self)
        ensures
            o.wf(),
            o.relayed() == 0,
    {
        Orchestrator { relayed: 0 }
    }

    /// The number of rounds relayed so far.
    pub fn rounds_relayed(&self) -> (n: u32)
        ensures
            n == self.relayed(),
    {
        self.relayed
    }

    /// Decides on the envelope just read from the referee: a finish ends the
    /// match; a request is relayed while the budget of `MAX_ROUND + 1` rounds
    /// lasts, and ends the match once it is spent.
    pub fn on_logic_message(&mut self, command: LogicCommand) -> (a: JudgerAction)
        requires
            old(self).wf(),
        ensures
            final(self).wf(),
            command == LogicCommand::Finish ==> a == JudgerAction::Terminate && final(self).relayed()
                == old(self).relayed(),
            command == LogicCommand::Request && old(self).relayed() <= MAX_ROUND ==> a
                == JudgerAction::RelayRound && final(self).relayed() == old(self).relayed() + 1,
            command == LogicCommand::Request && old(self).relayed() > MAX_ROUND ==> a
                == JudgerAction::Terminate && final(self).relayed() == old(self).relayed(),
    {
        match command {
            LogicCommand::Finish => JudgerAction::Terminate,
            LogicCommand::Request => {
                if self.relayed <= MAX_ROUND {
                    self.relayed = self.relayed + 1;
                    JudgerAction::RelayRound
                } else {
                    JudgerAction::Terminate
                }
            },
        }
    }
}

} // verus!
