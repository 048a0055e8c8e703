//! Bounded lifecycle management for subagents: validated spawn requests,
//! per-subagent notification streams, the turn-by-turn state machine of a
//! single run, and a supervisor that admits, tracks and cancels runs.

pub mod request;
pub mod notification;
pub mod runner;
pub mod supervisor;
