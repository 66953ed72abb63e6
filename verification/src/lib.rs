//! Verified core of a command-line controller for a SwitchBot Color Bulb.
pub mod api;
pub mod cli;
pub mod commands;
pub mod config;
pub mod feedback;
pub mod listing;
pub mod signing;
pub mod status_json;
pub mod text;
