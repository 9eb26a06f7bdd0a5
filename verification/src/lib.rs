//! Host metrics: readings shaped into snapshots, rendered as text, and the
//! state machine of the interactive dashboard.

pub mod cli;
pub mod config;
pub mod decimal;
pub mod engine;
pub mod error;
pub mod frame;
pub mod json;
pub mod metric;
pub mod modules;
pub mod output;
pub mod text;
pub mod tui;
