//! The payloads of the rock-paper-scissors game carried by the envelopes.
use crate::logic::{Gesture, RoundResult};
use vstd::prelude::*;

verus! {

/// Init payload: which scoring strategy the match uses.
#[derive(Debug, Clone, Copy, PartialEq, Eq, Structural)]
pub struct InitData {
    pub use_combo_scoring: bool,
}

/// Per-round request to each agent: the last round and the scores so far.
#[derive(Debug, Clone, Copy)]
pub struct Request {
    pub last_gestures: [Gesture; 3],
    pub last_result: [RoundResult; 3],
    pub total_scores: [i32; 3],
}

/// Per-round spectator view; for this game it shows what the request shows.
#[derive(Debug, Clone, Copy)]
pub struct Display {
    pub last_gestures: [Gesture; 3],
    pub last_result: [RoundResult; 3],
    pub total_scores: [i32; 3],
}

/// An agent's move for one round.
#[derive(Debug, Clone, Copy, PartialEq, Eq, Structural)]
pub struct Response {
    pub gesture: Gesture,
}

/// The display that shows the same round as `r`.
pub open spec fn display_for(r: Request) -> Display {
    Display {
        last_gestures: r.last_gestures,
        last_result: r.last_result,
        total_scores: r.total_scores,
    }
}

impl Request {
    /// The display that shows the same round as this request.
    pub fn to_display(&self) -> (d: Display)
        ensures
            d == display_for(*self),
    {
        Display {
            last_gestures: self.last_gestures,
            last_result: self.last_result,
            total_scores: self.total_scores,
        }
    }
}

} // verus!
