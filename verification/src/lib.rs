//! Telemetry polling engine for a solar inverter.
//!
//! The engine decides which device commands to issue, in which order and on
//! which cadence, what to publish for each result, how often to retry a
//! publish, and how to back off after a failure. It performs no I/O itself:
//! a driver carries out each [`engine::Action`] and reports back an
//! [`engine::Event`].
//!
//! - [`settings`]: the settings of the agent.
//! - [`command`]: the device commands and their channel names.
//! - [`schedule`]: which commands run in which tier, by mode.
//! - [`stats`]: the heartbeat payload, written and read back.
//! - [`publish`]: messages and their bounded, best-effort delivery.
//! - [`clock`]: the monotonic clock.
//! - [`engine`]: the state machine and its model.
//! - [`script`]: the list of operations of a pass, and what is proved of
//!   the engine: that it follows the list, and how it gets over a failure.

pub mod clock;
pub mod command;
pub mod engine;
pub mod publish;
pub mod schedule;
pub mod script;
pub mod settings;
pub mod stats;
