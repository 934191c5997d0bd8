//! Orchestration logic for pushing an embedded project to a remote build host
//! and flashing it from there.
//!
//! The library decides; the program around it acts. Every external effect
//! (running a command, sleeping, reading a file) is requested as a plain value
//! and its result is handed back as a plain value.

pub mod arguments;
pub mod chip;
pub mod config;
pub mod driver;
pub mod process;
pub mod report;
pub mod run;
pub mod settings;
pub mod sync;
pub mod wake;
