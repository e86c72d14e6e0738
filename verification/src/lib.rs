//! Watches the recordings of terminals and reports the commands that run in them: when a command
//! starts and ends, with which exit code, and which steps its output shows.
//!
//! A recording comes line by line ([`recording`]) over a [`connection`]. Its data holds escape
//! sequences by which the shell marks prompts and commands ([`osc`]); they drive the [`session`]
//! of each process, from which the [`event`]s come. [`filter`]s find the steps. [`terminals`] keeps
//! the headers of the terminals, and [`laws`] states what holds over the whole course of a
//! recording.

pub mod calendar;
pub mod connection;
pub mod detail;
pub mod event;
pub mod filter;
pub mod laws;
pub mod number;
pub mod osc;
pub mod pattern;
pub mod recording;
pub mod session;
pub mod terminals;
pub mod text;
