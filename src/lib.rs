//! Connectivity lifecycle and session-retry engine of a wireless network
//! client: the decisions of each long-lived task written as state machines
//! from (state, event) to (next state, action), each with its contract.
//! The program around the library performs the actions (radio, timers,
//! sockets, secure sessions) and hands the outcomes back as events.

pub mod config;
pub mod gate;
pub mod supervisor;
pub mod session;
pub mod scheduler;
