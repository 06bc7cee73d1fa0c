//! Watching the ports that development servers listen on: who listens on
//! which port, what has changed since the last look, and how to end a
//! process, or all of them, gently first and by force if need be.
//!
//! The library decides, and leaves nearly all acting to its caller. It runs
//! no command, sends no signal and does not sleep: it says what is to be done
//! next, and is told how that went. The one thing it does itself is to put
//! an update into the channel that the monitor was given, in
//! `ProcessMonitor::publish` and `ProcessMonitor::report`. Every decision is
//! proved against a model of it in plain values; of the channel nothing is
//! proved but that an update that it refuses comes back unchanged.

pub mod batch;
pub mod cli;
pub mod console_app;
pub mod decimal;
pub mod probe;
pub mod process_monitor;
pub mod scan;
pub mod search;
pub mod termination;
pub mod text;
pub mod tray_menu;
pub mod types;
