//! Joi: the logic of a local voice and screen companion.
pub mod builtin;
pub mod capture;
pub mod clock;
pub mod config;
pub mod connectivity;
pub mod double;
pub mod error;
pub mod history;
pub mod host;
pub mod manager;
pub mod media;
pub mod metrics;
pub mod native;
pub mod providers;
pub mod secrets;
pub mod session;
pub mod settings;
pub mod text;
pub mod tools;
pub mod tui;
pub mod util;
