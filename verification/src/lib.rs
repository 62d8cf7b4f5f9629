//! A terminal coding agent: its settings, the providers it talks to, the tools it runs, its
//! conversations and sessions, and what it shows in line mode and on the full screen.
//!
//! Everything here is a function of plain values. Reading files, running processes, talking
//! to the network and drawing on a terminal is left to the program around it, which hands
//! in what it found and does what it is told.
pub mod agent;
pub mod commands;
pub mod completion;
pub mod config;
pub mod context;
pub mod json;
pub mod paths;
pub mod plan;
pub mod provider;
pub mod search;
pub mod sessions;
pub mod sorting;
pub mod text;
pub mod thinking;
pub mod tools;
pub mod tui;
pub mod ui;
pub mod workers;
pub mod worktrees;
