//! The OpenAI Realtime adapter, which is not functional: it refuses to connect.
use vstd::prelude::*;
use vstd::string::*;

use crate::error::{SessionError, SessionErrorView};
use crate::session::Capabilities;

verus! {

/// An adapter that cannot connect.
#[derive(Debug, Clone, Copy, PartialEq, Eq, Structural)]
pub struct OpenAIAdapter;

impl OpenAIAdapter {
    /// The adapter.
    #[must_use]
    pub fn new() -> (r: Self)
        ensures
            r == OpenAIAdapter,
    {
        OpenAIAdapter
    }

    /// Connecting is not offered.
    pub fn connect(&self) -> (r: Result<(), SessionError>)
        ensures
            r matches Err(e) && e@ == SessionErrorView::Unimplemented(
                "OpenAI Realtime adapter is post-MVP"@,
            ),
    {
        Err(SessionError::Unimplemented("OpenAI Realtime adapter is post-MVP".to_owned()))
    }

    /// There is nothing to send anything through.
    pub fn send(&self) -> (r: Result<(), SessionError>)
        ensures
            r matches Err(e) && e@ == SessionErrorView::NotConnected,
    {
        Err(SessionError::NotConnected)
    }

    /// What the provider can do.
    pub fn capabilities(&self) -> (r: Capabilities)
        ensures
            r == (Capabilities {
                session_resumption: false,
                native_screen_input: false,
                async_tool_calls: false,
            }),
    {
        Capabilities {
            session_resumption: false,
            native_screen_input: false,
            async_tool_calls: false,
        }
    }
}

} // verus!
