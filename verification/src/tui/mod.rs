//! The terminal frontend: what its keys mean, what it shows, and how the engine's events change it.
pub mod app;
pub mod commands;
pub mod input;
pub mod keys;
pub mod picker;
pub mod theme;
pub mod transcript;
pub mod ui;
