//! The providers: which one a configuration picks, and how each one's messages become session
//! events.
pub mod conformance;
pub mod factory;
pub mod gemini;
pub mod mock;
pub mod openai;

pub use factory::{build_connectivity_probe, build_session_factory, voice_catalog, FactoryError};
pub use mock::MockSession;
pub use openai::OpenAIAdapter;
