//! The built-in tools: what each asks for, what it may touch, and what it answers.
pub mod edit;
pub mod lines;
pub mod paths;
pub mod run;
pub mod search;
