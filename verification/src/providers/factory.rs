//! Which provider a configuration picks.
use vstd::prelude::*;
use vstd::string::*;

use crate::config::{ApiKey, Config, ProviderName};

verus! {

/// Why there is no session to be had.
#[derive(Debug, PartialEq, Eq)]
pub enum FactoryError {
    /// Gemini was picked, but there is no key.
    MissingApiKey,
    /// The provider is not part of this build.
    ProviderDisabled(String),
}

impl FactoryError {
    /// The words of the error.
    pub open spec fn words(&self) -> Seq<char> {
        match self {
            FactoryError::MissingApiKey => "no API key for the gemini provider \u{2014} set GEMINI_API_KEY or live_api.gemini.api_key"@,
            FactoryError::ProviderDisabled(name) => "provider '"@ + name@
                + "' is not compiled in (feature disabled)"@,
        }
    }

    /// The error as one line for a person.
    pub fn to_string(&self) -> (r: String)
        ensures
            r@ == self.words(),
    {
        match self {
            FactoryError::MissingApiKey => {
                "no API key for the gemini provider \u{2014} set GEMINI_API_KEY or live_api.gemini.api_key".to_owned()
            },
            FactoryError::ProviderDisabled(name) => crate::text::join3(
                "provider '",
                name.as_str(),
                "' is not compiled in (feature disabled)",
            ),
        }
    }
}

/// The session that a configuration asks for.
#[derive(PartialEq, Eq)]
pub enum SessionPlan {
    /// Gemini Live with a key.
    Gemini {
        /// The key.
        api_key: ApiKey,
    },
    /// The OpenAI adapter.
    Openai,
    /// The scripted session.
    Mock,
}

/// The session that a configuration asks for. Gemini needs a key.
pub fn build_session_factory(config: &Config) -> (r: Result<SessionPlan, FactoryError>)
    ensures
        match config.live_api.provider {
            ProviderName::Gemini => if config.live_api.gemini.api_key@.len() > 0 {
                r matches Ok(SessionPlan::Gemini { api_key }) && api_key@
                    == config.live_api.gemini.api_key@
            } else {
                r matches Err(FactoryError::MissingApiKey)
            },
            ProviderName::Openai => r matches Ok(SessionPlan::Openai),
            ProviderName::Mock => r matches Ok(SessionPlan::Mock),
        },
{
    match config.live_api.provider {
        ProviderName::Gemini => if config.live_api.gemini.api_key.is_set() {
            Ok(SessionPlan::Gemini { api_key: config.live_api.gemini.api_key.clone() })
        } else {
            Err(FactoryError::MissingApiKey)
        },
        ProviderName::Openai => Ok(SessionPlan::Openai),
        ProviderName::Mock => Ok(SessionPlan::Mock),
    }
}

/// The key with which reachability can be probed: Gemini's, where it is picked and has one. No other
/// provider can be probed.
#[must_use]
pub fn build_connectivity_probe(config: &Config) -> (r: Option<ApiKey>)
    ensures
        r is Some == (config.live_api.provider == ProviderName::Gemini
            && config.live_api.gemini.api_key@.len() > 0),
        r is Some ==> r->0@ == config.live_api.gemini.api_key@,
{
    match config.live_api.provider {
        ProviderName::Gemini => if config.live_api.gemini.api_key.is_set() {
            Some(config.live_api.gemini.api_key.clone())
        } else {
            None
        },
        _ => None,
    }
}

/// The voices that the picked provider offers: those of the model for Gemini, none otherwise.
pub open spec fn catalog_of(config: Config) -> Seq<Seq<char>> {
    if config.live_api.provider == ProviderName::Gemini {
        super::gemini::voices_of(config.live_api.gemini.model@)
    } else {
        Seq::empty()
    }
}

/// The voices that the picked provider offers.
#[must_use]
pub fn voice_catalog(config: &Config) -> (r: Vec<String>)
    ensures
        crate::text::views(r@) == catalog_of(*config),
{
    match config.live_api.provider {
        ProviderName::Gemini => super::gemini::voices(config.live_api.gemini.model.as_str()),
        _ => {
            let none: Vec<String> = Vec::new();
            assert(crate::text::views(none@) =~= Seq::empty());
            none
        },
    }
}

/// Only Gemini offers voices, those of its model; and how a missing session reads.
pub proof fn law_catalog_by_provider(config: Config, name: String)
    ensures
        config.live_api.provider is Gemini ==> catalog_of(config) == super::gemini::voices_of(
            config.live_api.gemini.model@,
        ),
        config.live_api.provider is Openai || config.live_api.provider is Mock ==> catalog_of(
            config,
        ).len() == 0,
        FactoryError::ProviderDisabled(name).words() == "provider '"@ + name@
            + "' is not compiled in (feature disabled)"@,
        FactoryError::MissingApiKey.words()
            == "no API key for the gemini provider \u{2014} set GEMINI_API_KEY or live_api.gemini.api_key"@,
{
}

} // verus!
