//! What can go wrong at each boundary of the library, and how each failure reads to a person.
use vstd::prelude::*;
use vstd::string::*;

verus! {

/// Failure loading or validating a [`crate::config::Config`].
#[derive(Debug, PartialEq, Eq)]
pub enum ConfigError {
    /// The layered merge or the parse failed.
    Load(String),
    /// A field was present but outside its allowed range.
    Invalid {
        /// Dotted path of the offending field, such as `media.audio.frame_ms`.
        field: String,
        /// Why the value was rejected.
        reason: String,
    },
    /// A required directory could not be resolved or created.
    Path {
        /// The path that could not be resolved or created.
        path: String,
        /// Why resolution failed.
        reason: String,
    },
}

impl ConfigError {
    /// The words of the error.
    pub open spec fn words(&self) -> Seq<char> {
        match self {
            ConfigError::Load(why) => "failed to load configuration: "@ + why@,
            ConfigError::Invalid { field, reason } => "invalid configuration: "@ + field@ + ": "@
                + reason@,
            ConfigError::Path { path, reason } => "could not resolve path "@ + path@ + ": "@
                + reason@,
        }
    }

    /// The error as one line for a person.
    pub fn to_string(&self) -> (r: String)
        ensures
            r@ == self.words(),
    {
        match self {
            ConfigError::Load(why) => {
                let mut out: String = "failed to load configuration: ".to_owned();
                out.append(why.as_str());
                out
            },
            ConfigError::Invalid { field, reason } => {
                let mut out: String = "invalid configuration: ".to_owned();
                out.append(field.as_str());
                out.append(": ");
                out.append(reason.as_str());
                out
            },
            ConfigError::Path { path, reason } => {
                let mut out: String = "could not resolve path ".to_owned();
                out.append(path.as_str());
                out.append(": ");
                out.append(reason.as_str());
                out
            },
        }
    }
}

/// Failure on a realtime session.
#[derive(Debug, Clone, PartialEq, Eq)]
pub enum SessionError {
    /// Could not establish the realtime connection.
    Connect(String),
    /// The session is not connected, so this operation is invalid.
    NotConnected,
    /// Sending audio, video or text to the provider failed.
    Send(String),
    /// The provider reported an authentication or authorization failure.
    Auth(String),
    /// The provider sent a protocol-level error.
    Provider(String),
    /// This adapter does not offer the operation.
    Unimplemented(String),
}

/// A [`SessionError`] with its text as a sequence of characters.
pub enum SessionErrorView {
    /// See [`SessionError::Connect`].
    Connect(Seq<char>),
    /// See [`SessionError::NotConnected`].
    NotConnected,
    /// See [`SessionError::Send`].
    Send(Seq<char>),
    /// See [`SessionError::Auth`].
    Auth(Seq<char>),
    /// See [`SessionError::Provider`].
    Provider(Seq<char>),
    /// See [`SessionError::Unimplemented`].
    Unimplemented(Seq<char>),
}

impl View for SessionError {
    type V = SessionErrorView;

    open spec fn view(&self) -> SessionErrorView {
        match self {
            SessionError::Connect(s) => SessionErrorView::Connect(s@),
            SessionError::NotConnected => SessionErrorView::NotConnected,
            SessionError::Send(s) => SessionErrorView::Send(s@),
            SessionError::Auth(s) => SessionErrorView::Auth(s@),
            SessionError::Provider(s) => SessionErrorView::Provider(s@),
            SessionError::Unimplemented(s) => SessionErrorView::Unimplemented(s@),
        }
    }
}

impl SessionErrorView {
    /// The words of the error.
    pub open spec fn words(self) -> Seq<char> {
        match self {
            SessionErrorView::Connect(s) => "connection failed: "@ + s,
            SessionErrorView::NotConnected => "session not connected"@,
            SessionErrorView::Send(s) => "send failed: "@ + s,
            SessionErrorView::Auth(s) => "authentication failed: "@ + s,
            SessionErrorView::Provider(s) => "provider error: "@ + s,
            SessionErrorView::Unimplemented(s) => "provider not implemented: "@ + s,
        }
    }
}

impl SessionError {
    /// The error as one line for a person.
    pub fn to_string(&self) -> (r: String)
        ensures
            r@ == self@.words(),
    {
        match self {
            SessionError::Connect(s) => crate::text::join2("connection failed: ", s.as_str()),
            SessionError::NotConnected => "session not connected".to_owned(),
            SessionError::Send(s) => crate::text::join2("send failed: ", s.as_str()),
            SessionError::Auth(s) => crate::text::join2("authentication failed: ", s.as_str()),
            SessionError::Provider(s) => crate::text::join2("provider error: ", s.as_str()),
            SessionError::Unimplemented(s) => crate::text::join2(
                "provider not implemented: ",
                s.as_str(),
            ),
        }
    }
}

/// Failure on a history store.
#[derive(Debug, PartialEq, Eq)]
pub enum HistoryError {
    /// An I/O error touching the history file or directory.
    Io(String),
    /// A persisted record could not be read or written.
    Serde(String),
}

impl HistoryError {
    /// The words of the error.
    pub open spec fn words(&self) -> Seq<char> {
        match self {
            HistoryError::Io(s) => "history io error: "@ + s@,
            HistoryError::Serde(s) => "history serialization error: "@ + s@,
        }
    }

    /// The error as one line for a person.
    pub fn to_string(&self) -> (r: String)
        ensures
            r@ == self.words(),
    {
        match self {
            HistoryError::Io(s) => crate::text::join2("history io error: ", s.as_str()),
            HistoryError::Serde(s) => crate::text::join2(
                "history serialization error: ",
                s.as_str(),
            ),
        }
    }
}

/// Failure on a screen source.
#[derive(Debug, PartialEq, Eq)]
pub enum CaptureError {
    /// No capture backend is available on this platform or session.
    Unavailable(String),
    /// The requested source id does not exist.
    UnknownSource(String),
    /// The capture backend returned an error while running.
    Backend(String),
}

impl CaptureError {
    /// The words of the error.
    pub open spec fn words(&self) -> Seq<char> {
        match self {
            CaptureError::Unavailable(s) => "screen capture unavailable: "@ + s@,
            CaptureError::UnknownSource(s) => "unknown capture source: "@ + s@,
            CaptureError::Backend(s) => "capture backend error: "@ + s@,
        }
    }

    /// The error as one line for a person.
    pub fn to_string(&self) -> (r: String)
        ensures
            r@ == self.words(),
    {
        match self {
            CaptureError::Unavailable(s) => crate::text::join2(
                "screen capture unavailable: ",
                s.as_str(),
            ),
            CaptureError::UnknownSource(s) => crate::text::join2(
                "unknown capture source: ",
                s.as_str(),
            ),
            CaptureError::Backend(s) => crate::text::join2("capture backend error: ", s.as_str()),
        }
    }
}

/// Failure changing a setting.
#[derive(Debug, PartialEq, Eq)]
pub enum SettingsError {
    /// The value does not fit the setting.
    InvalidValue {
        /// The slug of the setting.
        setting: String,
        /// Why the value was rejected.
        reason: String,
    },
    /// The changed configuration could not be written.
    Io(String),
}

/// Failure of an API-key store.
#[derive(Debug, PartialEq, Eq)]
pub enum SecretError {
    /// The backing store refused or failed.
    Backend(String),
}

/// How each failure reads: what failed, and the details behind it.
pub proof fn law_failures_in_words(s: String, t: String, v: Seq<char>)
    ensures
        ConfigError::Load(s).words() == "failed to load configuration: "@ + s@,
        (ConfigError::Invalid { field: s, reason: t }).words() == "invalid configuration: "@ + s@
            + ": "@ + t@,
        (ConfigError::Path { path: s, reason: t }).words() == "could not resolve path "@ + s@ + ": "@
            + t@,
        SessionErrorView::Connect(v).words() == "connection failed: "@ + v,
        SessionErrorView::NotConnected.words() == "session not connected"@,
        SessionErrorView::Send(v).words() == "send failed: "@ + v,
        SessionErrorView::Auth(v).words() == "authentication failed: "@ + v,
        SessionErrorView::Provider(v).words() == "provider error: "@ + v,
        SessionErrorView::Unimplemented(v).words() == "provider not implemented: "@ + v,
        HistoryError::Io(s).words() == "history io error: "@ + s@,
        HistoryError::Serde(s).words() == "history serialization error: "@ + s@,
        CaptureError::Unavailable(s).words() == "screen capture unavailable: "@ + s@,
        CaptureError::UnknownSource(s).words() == "unknown capture source: "@ + s@,
        CaptureError::Backend(s).words() == "capture backend error: "@ + s@,
{
}

} // verus!
