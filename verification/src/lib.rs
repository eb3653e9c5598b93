//! Tracking of when recurring tasks last ran: durations, timestamps, the
//! decisions behind each command, and the state of the interactive views.
pub mod calendar;
pub mod cli;
pub mod controls;
pub mod db;
pub mod error;
pub mod format;
pub mod model;
pub mod settings;
pub mod status;
pub mod text;
pub mod time;
pub mod tui;
