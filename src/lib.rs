//! A referee library for three-player rock-paper-scissors matches run over a
//! line-delimited message protocol: the game rule, the scoring strategies, the
//! message envelopes, the round state machine of the referee process, and the
//! relay decisions of the orchestrating process.

pub mod agent;
pub mod io_types;
pub mod judger;
pub mod logic;
pub mod machine;
pub mod score;
pub mod protocol;
pub mod sender;
