//! Supervision of a media subprocess and extraction of telemetry from its text output.

pub mod config;
pub mod text;
pub mod protocol;
pub mod events;
pub mod probe;
pub mod diagnostic;
pub mod progress;
pub mod supervisor;
pub mod session;
pub mod monitor;
