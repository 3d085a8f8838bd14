//! The record types exchanged with the persistent configuration store, and
//! the pure rules applied to them.
//!
//! The store itself (open, query, update) is an external collaborator; the
//! embedding program talks to it and hands these plain records back and
//! forth. What the library owns are the rules: which stored fields a record
//! with optional parts denotes, and which providers a listing shows.

use vstd::prelude::*;

verus! {

/// A named custom provider configuration, as the store keeps it.
#[derive(Clone, Debug)]
pub struct CustomConfig {
    pub name: String,
    pub api_key: String,
    pub model: String,
    pub session_key: String,
}

/// A model provider configuration: how one provider is reached and queried.
#[derive(Clone, Debug)]
pub struct ModelConfig {
    pub provider: String,
    pub api_url: String,
    pub model: String,
    pub session_key: String,
    pub endpoint: Option<String>,
    pub method: Option<String>,
}

impl ModelConfig {
    /// The endpoint column the store receives: the configured endpoint, or
    /// empty when none was configured.
    pub fn stored_endpoint(&self) -> (r: String)
        ensures
            match self.endpoint {
                Some(e) => r@ == e@,
                None => r@ == Seq::<char>::empty(),
            },
    {
        match &self.endpoint {
            Some(e) => e.clone(),
            None => String::new(),
        }
    }

    /// The method column the store receives: the configured method, or the
    /// chat-completions default when none was configured.
    pub fn stored_method(&self) -> (r: String)
        ensures
            match self.method {
                Some(m) => r@ == m@,
                None => r@ == "/v1/chat/completions"@,
            },
    {
        match &self.method {
            Some(m) => m.clone(),
            None => {
                let d: &str = "/v1/chat/completions";
                d.to_owned()
            },
        }
    }
}

/// Whether a listing restricted by `filter` shows every provider. Only the
/// literal filter word "ALL" lifts the restriction.
pub fn listing_shows_all(filter: &Option<String>) -> (r: bool)
    ensures
        r <==> match filter {
            Some(f) => f@ == "ALL"@,
            None => false,
        },
{
    match filter {
        Some(f) => {
            let all: &str = "ALL";
            f.eq(&all.to_owned())
        },
        None => false,
    }
}

/// Whether a listing shows the provider named `provider`: an unrestricted
/// listing shows everything, a restricted one hides the two built-in
/// providers and shows only the custom ones.
pub fn listing_shows(show_all: bool, provider: &String) -> (r: bool)
    ensures
        r <==> (show_all || (provider@ != "openai"@ && provider@ != "ollama"@)),
{
    if show_all {
        true
    } else {
        let openai: &str = "openai";
        let ollama: &str = "ollama";
        !provider.eq(&openai.to_owned()) && !provider.eq(&ollama.to_owned())
    }
}

} // verus!
