//! Staged construction of the outgoing envelopes: entries and the display are
//! added one by one, and the envelope only exists once the display is set.
use crate::protocol::{entries_have_key, FinishMessage, FinishOutput, FinishState, RoundOutput, SerializableMap};
use vstd::prelude::*;

verus! {

/// Collects the per-agent requests and the display of one round.
pub struct RoundMessageSender<Request, Display> {
    content: SerializableMap<String, Request>,
    display: Option<Display>,
}

impl<Request, Display> RoundMessageSender<Request, Display> {
    /// The requests collected so far, in the order their names first came.
    pub closed spec fn content_of(&self) -> Seq<(String, Request)> {
        self.content.0@
    }

    /// The display, once set.
    pub closed spec fn display_of(&self) -> Option<Display> {
        self.display
    }

    /// No agent name occurs twice.
    pub closed spec fn wf(&self) -> bool {
        self.content.wf()
    }

    /// A sender with no request and no display.
    pub fn new() -> (s: Self)
        ensures
            s.wf(),
            s.content_of() == Seq::<(String, Request)>::empty(),
            s.display_of() is None,
    {
        RoundMessageSender { content: SerializableMap::new(), display: None }
    }

    /// Sets the request for agent `name`, replacing an earlier one.
    pub fn send_agent(self, name: String, request: Request) -> (s: Self)
        requires
            self.wf(),
        ensures
            s.wf(),
            s.display_of() == self.display_of(),
            entries_have_key(self.content_of(), name@) ==> exists|i: int|
                0 <= i < self.content_of().len() && self.content_of()[i].0@ == name@
                    && s.content_of() == self.content_of().update(i, (name, request)),
            !entries_have_key(self.content_of(), name@) ==> s.content_of() == self.content_of().push(
                (name, request),
            ),
    {
        let mut s = self;
        s.content.insert(name, request);
        s
    }

    /// Sets the display, replacing an earlier one.
    pub fn send_display(self, display: Display) -> (s: Self)
        ensures
            s.wf() == self.wf(),
            s.content_of() == self.content_of(),
            s.display_of() == Some(display),
    {
        let mut s = self;
        s.display = Some(display);
        s
    }

    /// The round envelope, or `None` while no display has been set.
    pub fn end(self) -> (r: Option<RoundOutput<Request, Display>>)
        ensures
            self.display_of() is None ==> r is None,
            self.display_of() is Some ==> r is Some && r->0.content.0@ == self.content_of()
                && r->0.display == self.display_of()->0 && r->0.content.wf() == self.wf(),
    {
        match self.display {
            Some(display) => Some(RoundOutput { content: self.content, display }),
            None => None,
        }
    }
}

/// Collects the per-agent scores and states and the final display.
pub struct FinishMessageSender<Display> {
    content: SerializableMap<String, FinishMessage>,
    display: Option<Display>,
}

impl<Display> FinishMessageSender<Display> {
    /// The entries collected so far, in the order their names first came.
    pub closed spec fn content_of(&self) -> Seq<(String, FinishMessage)> {
        self.content.0@
    }

    /// The display, once set.
    pub closed spec fn display_of(&self) -> Option<Display> {
        self.display
    }

    /// No agent name occurs twice.
    pub closed spec fn wf(&self) -> bool {
        self.content.wf()
    }

    /// A sender with no entry and no display.
    pub fn new() -> (s: Self)
        ensures
            s.wf(),
            s.content_of() == Seq::<(String, FinishMessage)>::empty(),
            s.display_of() is None,
    {
        FinishMessageSender { content: SerializableMap::new(), display: None }
    }

    /// Sets the score and state of agent `name`, replacing an earlier entry.
    pub fn send_agent(self, name: String, score: i32, state: FinishState) -> (s: Self)
        requires
            self.wf(),
        ensures
            s.wf(),
            s.display_of() == self.display_of(),
            entries_have_key(self.content_of(), name@) ==> exists|i: int|
                0 <= i < self.content_of().len() && self.content_of()[i].0@ == name@
                    && s.content_of() == self.content_of().update(
                    i,
                    (name, FinishMessage { score, state }),
                ),
            !entries_have_key(self.content_of(), name@) ==> s.content_of() == self.content_of().push(
                (name, FinishMessage { score, state }),
            ),
    {
        let mut s = self;
        s.content.insert(name, FinishMessage { score, state });
        s
    }

    /// Sets the display, replacing an earlier one.
    pub fn send_display(self, display: Display) -> (s: Self)
        ensures
            s.wf() == self.wf(),
            s.content_of() == self.content_of(),
            s.display_of() == Some(display),
    {
        let mut s = self;
        s.display = Some(display);
        s
    }

    /// The finish envelope, or `None` while no display has been set.
    pub fn end(self) -> (r: Option<FinishOutput<Display>>)
        ensures
            self.display_of() is None ==> r is None,
            self.display_of() is Some ==> r is Some && r->0.content.0@ == self.content_of()
                && r->0.display == self.display_of()->0 && r->0.content.wf() == self.wf(),
    {
        match self.display {
            Some(display) => Some(FinishOutput { content: self.content, display }),
            None => None,
        }
    }
}

} // verus!
