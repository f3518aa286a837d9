//! Verified core of a DMX lighting-control kernel: fixture templates and
//! instances, DMX channel reservation, command-line parsing, client sessions
//! and subscriptions, and the DMX output packet formats.
mod text;
pub mod fixture;
pub mod engine;
pub mod networking;
pub mod logging;
pub mod cli;
pub mod dmx_output;
pub mod client_state;
pub mod launcher;
