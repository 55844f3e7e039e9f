//! The decision core of an encoding-station kiosk shell.
//!
//! `actor` is the station core, a state machine over `state` and `retry` whose
//! messages and effects are in `messages`. `core_laws` says what each input
//! does to it; `laws`, `tap_laws` and `shift_laws` state what it promises. The
//! other modules hold the rules around it, each with its laws: the simulated
//! layers, the reader monitor, the watchdog, the exit chord, and what a launch,
//! a command, a page or a log is held to. `outside` has the calls into other
//! crates.

pub mod actor;
pub mod batch_source;
pub mod boot;
pub mod cli;
pub mod commands;
pub mod config;
pub mod conformance;
pub mod contract;
pub mod core_laws;
pub mod devexit;
pub mod keying;
pub mod launch;
pub mod laws;
pub mod logging;
pub mod messages;
pub mod outside;
pub mod pin;
pub mod probe;
pub mod reader;
pub mod records;
pub mod retry;
pub mod shift_laws;
pub mod spike;
pub mod state;
pub mod tap_laws;
pub mod text;
pub mod watchdog;
pub mod windows;
