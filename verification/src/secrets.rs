//! Where the provider's API key comes from.
use vstd::prelude::*;
use vstd::string::*;

use crate::config::ApiKey;
use crate::error::SecretError;

verus! {

/// The environment variable that can hold the key.
pub const API_KEY_ENV: &'static str = "GEMINI_API_KEY";

/// The text of a key that may be there.
pub open spec fn opt_key(key: Option<ApiKey>) -> Option<Seq<char>> {
    match key {
        Some(k) => Some(k@),
        None => None,
    }
}

/// A store that keeps the key in memory only.
pub struct InMemorySecretStore {
    key: Option<ApiKey>,
}

impl View for InMemorySecretStore {
    type V = Option<Seq<char>>;

    closed spec fn view(&self) -> Option<Seq<char>> {
        opt_key(self.key)
    }
}

impl InMemorySecretStore {
    /// A store without a key.
    #[must_use]
    pub fn new() -> (r: Self)
        ensures
            r@ is None,
    {
        InMemorySecretStore { key: None }
    }

    /// The key, if one was set.
    pub fn get_api_key(&self) -> (r: Option<ApiKey>)
        ensures
            opt_key(r) == self@,
    {
        match &self.key {
            Some(k) => Some(k.clone()),
            None => None,
        }
    }

    /// Set or replace the key.
    pub fn set_api_key(&mut self, key: ApiKey)
        ensures
            final(self)@ == Some(key@),
    {
        self.key = Some(key);
    }

    /// Whether a key was set.
    pub fn has_api_key(&self) -> (r: bool)
        ensures
            r == self@ is Some,
    {
        self.key.is_some()
    }
}

/// What reading the environment variable gave. Its value may be the key, so it cannot be printed.
#[derive(PartialEq, Eq)]
pub enum EnvValue {
    /// The variable is not set.
    Absent,
    /// Its value.
    Present(String),
    /// It is set to what is no text.
    NotUnicode,
}

/// A store that reads the key from the environment and cannot change it.
#[derive(Debug, Clone, Copy, PartialEq, Eq, Structural)]
pub struct EnvSecretStore;

/// What a backend refused, in words.
pub open spec fn is_backend_error(e: SecretError, why: Seq<char>) -> bool {
    e matches SecretError::Backend(s) && s@ == why
}

impl EnvSecretStore {
    /// A store that reads [`API_KEY_ENV`].
    #[must_use]
    pub fn new() -> (r: Self)
        ensures
            r == EnvSecretStore,
    {
        EnvSecretStore
    }

    /// The key from what the environment holds. Empty counts as not set.
    pub fn get_api_key(&self, value: EnvValue) -> (r: Result<Option<ApiKey>, SecretError>)
        ensures
            match value {
                EnvValue::Absent => r matches Ok(None),
                EnvValue::Present(s) => if s@.len() == 0 {
                    r matches Ok(None)
                } else {
                    r matches Ok(Some(k)) && k@ == s@
                },
                EnvValue::NotUnicode => r matches Err(e) && is_backend_error(
                    e,
                    API_KEY_ENV@ + " is set but is not valid UTF-8"@,
                ),
            },
    {
        match value {
            EnvValue::Absent => Ok(None),
            EnvValue::Present(s) => if s.as_str().is_empty() {
                Ok(None)
            } else {
                Ok(Some(ApiKey::new(s.as_str())))
            },
            EnvValue::NotUnicode => Err(
                SecretError::Backend(
                    crate::text::join2(API_KEY_ENV, " is set but is not valid UTF-8"),
                ),
            ),
        }
    }

    /// The environment is read-only: setting a key fails, and says how to set it instead.
    pub fn set_api_key(&self, key: ApiKey) -> (r: Result<(), SecretError>)
        ensures
            r matches Err(e) && is_backend_error(
                e,
                API_KEY_ENV@ + " is read-only; set it in your shell (e.g. `set -Ux "@ + API_KEY_ENV@
                    + " <key>`)"@,
            ),
    {
        let mut msg: String = crate::text::join3(
            API_KEY_ENV,
            " is read-only; set it in your shell (e.g. `set -Ux ",
            API_KEY_ENV,
        );
        msg.append(" <key>`)");
        Err(SecretError::Backend(msg))
    }
}

/// A store that reads the key from the environment, and else the one that was set while Joi runs.
pub struct EnvWithOverlayStore {
    overlay: Option<ApiKey>,
}

impl EnvWithOverlayStore {
    /// The key that was set, if one was.
    pub closed spec fn set(&self) -> Option<Seq<char>> {
        opt_key(self.overlay)
    }

    /// A store in which no key was set.
    pub fn new() -> (r: Self)
        ensures
            r.set() is None,
    {
        EnvWithOverlayStore { overlay: None }
    }

    /// The key from what the environment holds, or else the one that was set.
    pub fn get_api_key(&self, value: EnvValue) -> (r: Result<Option<ApiKey>, SecretError>)
        ensures
            match value {
                EnvValue::NotUnicode => r matches Err(e) && is_backend_error(
                    e,
                    API_KEY_ENV@ + " is set but is not valid UTF-8"@,
                ),
                EnvValue::Present(s) => r matches Ok(k) && opt_key(k) == if s@.len() > 0 {
                    Some(s@)
                } else {
                    self.set()
                },
                EnvValue::Absent => r matches Ok(k) && opt_key(k) == self.set(),
            },
    {
        match EnvSecretStore::new().get_api_key(value) {
            Err(e) => Err(e),
            Ok(Some(key)) => Ok(Some(key)),
            Ok(None) => match &self.overlay {
                Some(key) => Ok(Some(key.clone())),
                None => Ok(None),
            },
        }
    }

    /// Set a key, for as long as Joi runs.
    pub fn set_api_key(&mut self, key: ApiKey)
        ensures
            final(self).set() == Some(key@),
    {
        self.overlay = Some(key);
    }
}

} // verus!
