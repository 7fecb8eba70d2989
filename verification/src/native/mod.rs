//! Microphone, speaker and screen: what is done with the samples and the pixels.
pub mod capture;
pub mod engine;
pub mod playback;
pub mod recorder;
pub mod screen;

pub use engine::{MediaConfig, MediaEngine, MediaError};
