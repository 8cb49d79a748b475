//! The in-memory API-key cache.
//!
//! The key itself lives in the operating system's keyring, which the
//! surrounding application talks to; this cache holds the copy the
//! application works with between keyring calls.  Rather than process-wide
//! state behind a mutex, the cache is an explicit value the caller owns
//! and passes around.

use vstd::prelude::*;

verus! {

/// The cached API-key configuration.
pub struct AnthropicConfig {
    api_key: Option<String>,
}

impl View for AnthropicConfig {
    type V = Option<Seq<char>>;

    closed spec fn view(&self) -> Option<Seq<char>> {
        match self.api_key {
            Some(k) => Some(k.view()),
            None => None,
        }
    }
}

impl AnthropicConfig {
    /// A cache with no key.
    pub fn new() -> (r: Self)
        ensures
            r@ is None,
    {
        AnthropicConfig { api_key: None }
    }

    /// The cached key, if one is held.
    pub fn cached_api_key(&self) -> (r: Option<&String>)
        ensures
            self@ is None ==> r is None,
            self@ matches Some(k) ==> r matches Some(s) && s@ == k,
    {
        match &self.api_key {
            Some(s) => Some(s),
            None => None,
        }
    }

    /// Caches a key, replacing whatever was held.
    pub fn set_api_key(&mut self, api_key: String)
        ensures
            final(self)@ == Some(api_key@),
    {
        self.api_key = Some(api_key);
    }

    /// Drops the cached key.
    pub fn clear_api_key(&mut self)
        ensures
            final(self)@ is None,
    {
        self.api_key = None;
    }
}

/// The API-key state the application threads through its calls.
pub struct AnthropicState(pub AnthropicConfig);

impl Default for AnthropicState {
    /// A state with no cached key.
    fn default() -> (r: Self)
        ensures
            r.0@ is None,
    {
        AnthropicState(AnthropicConfig::new())
    }
}

} // verus!
