//! Supervision core for a local development-environment orchestrator.
//!
//! The crate models and verifies the logic of a process supervisor: a
//! registry of named services with a lifecycle state machine, health
//! classification, and a log pipeline (parsing, tailing, filtering and
//! formatting of service log lines).  All I/O — spawning children,
//! sending signals, HTTP probes, file reads — happens at the edges and
//! is handed to the library as plain values or through small trusted
//! wrappers.

pub mod text;

pub mod level;

pub mod numfmt;

pub mod timestamp;

pub mod log_parser;

pub mod log_watcher;

pub mod config;

pub mod git;

pub mod health_monitor;

pub mod process_manager;

pub mod log_streamer;
