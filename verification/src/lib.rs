//! A terminal system monitor's state model: process ordering, selection,
//! refresh pacing, themes, configuration and the formatting of readings.
pub mod app;
pub mod config;
pub mod format;
pub mod layout;
pub mod process;
pub mod text;
pub mod theme;
pub mod handlers;
pub mod laws;
pub mod ui;
