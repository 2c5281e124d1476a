//! Verified core of a download manager driving an aria2 engine over JSON-RPC.

pub mod activity;
pub mod calendar;
pub mod text;
pub mod types;
pub mod format;
pub mod config;
pub mod state;
pub mod daemon;
pub mod client;
pub mod views;
pub mod forms;
pub mod pages;
pub mod trackers;
pub mod notify;
pub mod theme;
