//! A bounded-membership voting tally engine.
//!
//! A fixed-capacity registry of eligible voters, a single-round ballot in
//! which each registered voter casts (and may revise) one choice among
//! Aye, Nay and Abstain, and a closing operation that validates ballot
//! completeness and computes a binary outcome from the collected choices.
//!
//! The host is expected to supply the plumbing around the engine: it decides
//! which callers hold the `Root` origin, delivers a computed [`ballot::Outcome`]
//! to interested observers, and persists the [`ballot::Ballot`] state between
//! calls. The engine itself only performs the state transitions and the
//! outcome computation, and every one of them carries a proved contract.

pub mod ballot;
pub mod laws;
