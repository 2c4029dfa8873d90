//! A blue-light filter: what its settings mean, which gamma ramps follow from them, and what its
//! daemon, its commands and its interfaces do.

pub mod binary64;
pub mod cli;
pub mod config;
pub mod conflict;
pub mod coordinate;
pub mod daemon;
pub mod dashboard;
pub mod error;
pub mod gamma;
pub mod gui;
pub mod ipc;
pub mod protocol;
pub mod schedule;
pub mod screen;
pub mod service;
pub mod service_tui;
pub mod text;
pub mod tray;
pub mod tui;
pub mod ui_common;
