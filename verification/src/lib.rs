//! Supervision core for a fleet of remote blockchain-node processes.
//!
//! Each connected node gets one supervisor: a small state machine that is
//! driven by poll results, evaluates alert hysteresis, and performs an
//! idempotent cleanup when its session ends.  A registry tracks the active
//! supervisors and feeds a daily fleet report.  All decision logic lives in
//! this crate and is verified; the wire transport, durable storage and alert
//! delivery are collaborators that the surrounding program supplies.

pub mod agent;
pub mod alerts;
pub mod common_rpc_types;
pub mod daily_reporter;
pub mod hardware;
pub mod registry;
pub mod text;
