//! The message envelopes exchanged between the orchestrator and the referee.
//!
//! "Input" envelopes travel to the referee, "Output" envelopes leave it. Each
//! is generic over the game's own payload types; turning them into a line of
//! text is left to the program that does the I/O.
use vstd::prelude::*;

verus! {

/// Runtime status of an agent for one round, attached by the orchestrator.
#[derive(Debug, Clone, Copy, PartialEq, Eq, Structural)]
pub enum AgentStatus {
    OK,
    RE,
    TLE,
    MLE,
    OLE,
    STLE,
    EXIT,
    UE,
    CANCEL,
    IA,
}

/// Terminal state of an agent in the finish envelope.
#[derive(Debug, Clone, Copy, PartialEq, Eq, Structural)]
pub enum FinishState {
    OK,
    FAIL,
}

/// One agent's round response with its verdict.
pub struct AgentMessage<Response> {
    pub verdict: AgentStatus,
    pub response: Response,
}

/// One agent's entry in the finish envelope.
pub struct FinishMessage {
    pub score: i32,
    pub state: FinishState,
}

/// The init envelope, sent once to the referee.
pub struct InitInput<InitData> {
    pub initdata: InitData,
}

/// The round request envelope: one request per agent name, and a display.
pub struct RoundOutput<Request, Display> {
    pub content: SerializableMap<String, Request>,
    pub display: Display,
}

/// The round response envelope: one verdict-tagged response per agent name.
pub struct RoundInput<Response> {
    pub log: SerializableMap<String, AgentMessage<Response>>,
}

/// The finish envelope: one score and state per agent name, and a display.
pub struct FinishOutput<Display> {
    pub content: SerializableMap<String, FinishMessage>,
    pub display: Display,
}

/// Some entry of `entries` has key `k`.
pub open spec fn entries_have_key<V>(entries: Seq<(String, V)>, k: Seq<char>) -> bool {
    exists|i: int| 0 <= i < entries.len() && (#[trigger] entries[i]).0@ == k
}

/// A map kept as a list of entries in insertion order.
pub struct SerializableMap<K, V>(pub Vec<(K, V)>);

impl<K, V> SerializableMap<K, V> {
    /// An empty map.
    pub fn new() -> (m: Self)
        ensures
            m.0@ == Seq::<(K, V)>::empty(),
    {
        SerializableMap(Vec::new())
    }
}

impl<V> SerializableMap<String, V> {
    /// No two entries have the same key.
    pub open spec fn wf(&self) -> bool {
        forall|i: int, j: int|
            0 <= i < j < self.0@.len() ==> (#[trigger] self.0@[i]).0@ != (#[trigger] self.0@[j]).0@
    }

    /// Some entry has key `k`.
    pub open spec fn has_key(&self, k: Seq<char>) -> bool {
        entries_have_key(self.0@, k)
    }

    /// The position of the entry with key `key`, if there is one.
    pub fn position(&self, key: &String) -> (r: Option<usize>)
        ensures
            match r {
                Some(i) => i < self.0@.len() && self.0@[i as int].0@ == key@,
                None => !self.has_key(key@),
            },
    {
        let mut i: usize = 0;
        while i < self.0.len()
            invariant
                0 <= i <= self.0@.len(),
                forall|j: int| 0 <= j < i ==> (#[trigger] self.0@[j]).0@ != key@,
            decreases self.0@.len() - i,
        {
            if self.0[i].0 == *key {
                return Some(i);
            }
            i = i + 1;
        }
        None
    }

    /// Sets the value of `key`: an existing entry keeps its place and gets the
    /// new value, a new key is appended.
    pub fn insert(&mut self, key: String, value: V)
        requires
            old(self).wf(),
        ensures
            final(self).wf(),
            old(self).has_key(key@) ==> exists|i: int|
                0 <= i < old(self).0@.len() && old(self).0@[i].0@ == key@ && final(self).0@
                    == old(self).0@.update(i, (key, value)),
            !old(self).has_key(key@) ==> final(self).0@ == old(self).0@.push((key, value)),
    {
        match self.position(&key) {
            Some(i) => {
                self.0.set(i, (key, value));
            },
            None => {
                self.0.push((key, value));
            },
        }
    }
}

} // verus!
