//! Verified control-plane core for a single-room device coordinator.
//!
//! The crate models the coordinator state machine: signed command dispatch
//! with retry and idempotency, per-device liveness and safety tracking with
//! fail-closed latching, a scripted execution graph, and an operator control
//! plane. All decisions are pure functions of coordinator state, incoming
//! messages, and the caller-supplied clock; broker and store I/O stay outside.

pub mod actions;
pub mod coordinator;
pub mod dispatch;
pub mod graph;
pub mod json;
pub mod maps;
pub mod protocol;
pub mod resetflow;
pub mod safety;
pub mod signing;
pub mod sim;
pub mod state;
pub mod tracker;
