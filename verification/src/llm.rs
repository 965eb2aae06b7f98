//! Language-model configuration: which backends are configured, which one to
//! use, and the Gemini key pool. Secrets come from the environment only; the
//! values read from it are handed in as an [`LlmEnv`].
use vstd::prelude::*;

use crate::pool::KeyPool;
use crate::text::{csv_entries, csv_entry_strings, string_chars, string_of, trim, trim_chars};

verus! {

/// The raw values of the environment variables that configure the backends.
#[derive(Debug, Clone, Default)]
pub struct LlmEnv {
    /// `GEMINI_API_KEYS` (comma-separated).
    pub gemini_api_keys: Option<String>,
    /// `GEMINI_API_KEY`.
    pub gemini_api_key: Option<String>,
    /// `GROK_API_KEY`.
    pub grok_api_key: Option<String>,
    /// `XAI_API_KEY`.
    pub xai_api_key: Option<String>,
    /// `OLLAMA_HOST`.
    pub ollama_host: Option<String>,
    /// `GEMINI_MODEL`.
    pub gemini_model: Option<String>,
    /// `GROK_MODEL`.
    pub grok_model: Option<String>,
    /// `OLLAMA_MODEL`.
    pub ollama_model: Option<String>,
}

/// LLM configuration resolved from the environment.
#[derive(Debug, Clone)]
pub struct LlmConfig {
    pub gemini_keys: Vec<String>,
    pub grok_key: Option<String>,
    pub ollama_host: String,
    pub gemini_model: String,
    pub grok_model: String,
    pub ollama_model: String,
}

/// The backend to talk to, with what it needs to connect.
#[derive(Debug, Clone)]
pub enum LlmBackend {
    Gemini { api_key: String, model: String },
    Grok { api_key: String, model: String },
    Ollama { host: String, model: String },
}

/// An environment value counts only when it is not blank.
pub open spec fn env_value(v: Option<String>) -> Option<Seq<char>> {
    match v {
        Some(s) => if trim(s@).len() > 0 {
            Some(s@)
        } else {
            None
        },
        None => None,
    }
}

/// The value of a setting: the environment's when present, else `default`.
pub open spec fn setting(v: Option<String>, default: Seq<char>) -> Seq<char> {
    match env_value(v) {
        Some(s) => s,
        None => default,
    }
}

/// The Gemini keys: the entries of `GEMINI_API_KEYS` when it is set, else the
/// single `GEMINI_API_KEY`, if set.
pub open spec fn gemini_keys_of(env: LlmEnv) -> Seq<Seq<char>> {
    match env_value(env.gemini_api_keys) {
        Some(csv) => csv_entries(csv),
        None => match env_value(env.gemini_api_key) {
            Some(k) => seq![k],
            None => Seq::<Seq<char>>::empty(),
        },
    }
}

/// The value of an environment variable, unless it is blank.
fn present(v: &Option<String>) -> (r: Option<String>)
    ensures
        match env_value(*v) {
            Some(s) => r is Some && r->0@ == s,
            None => r is None,
        },
{
    match v {
        Some(s) => {
            let cs = string_chars(s);
            let t = trim_chars(&cs);
            if t.len() > 0 {
                Some(s.clone())
            } else {
                None
            }
        },
        None => None,
    }
}

impl LlmConfig {
    /// Resolve the configuration from the environment's values (keys are
    /// never hardcoded). Blank variables count as unset; models and the
    /// Ollama host fall back to built-in defaults.
    pub fn from_env_values(env: LlmEnv) -> (cfg: Self)
        ensures
            cfg.gemini_keys@.map_values(|k: String| k@) == gemini_keys_of(env),
            env.gemini_api_keys matches Some(csv) && trim(csv@).len() > 0 ==> cfg.gemini_keys@.map_values(
                |k: String| k@,
            ) == csv_entries(env.gemini_api_keys->0@),
            (env.gemini_api_keys is None || trim(env.gemini_api_keys->0@).len() == 0) && env.gemini_api_key is Some
                && trim(env.gemini_api_key->0@).len() > 0 ==> cfg.gemini_keys@.len() == 1 && cfg.gemini_keys@[0]@
                == env.gemini_api_key->0@,
            (env.gemini_api_keys is None || trim(env.gemini_api_keys->0@).len() == 0) && (env.gemini_api_key is None
                || trim(env.gemini_api_key->0@).len() == 0) ==> cfg.gemini_keys@.len() == 0,
            env.grok_api_key matches Some(k) && trim(k@).len() > 0 ==> cfg.grok_key is Some && cfg.grok_key->0@ == env.grok_api_key->0@,
            (env.grok_api_key is None || trim(env.grok_api_key->0@).len() == 0) && env.xai_api_key is Some
                && trim(env.xai_api_key->0@).len() > 0 ==> cfg.grok_key is Some && cfg.grok_key->0@ == env.xai_api_key->0@,
            match env_value(env.grok_api_key) {
                Some(k) => cfg.grok_key is Some && cfg.grok_key->0@ == k,
                None => match env_value(env.xai_api_key) {
                    Some(k) => cfg.grok_key is Some && cfg.grok_key->0@ == k,
                    None => cfg.grok_key is None,
                },
            },
            cfg.ollama_host@ == setting(env.ollama_host, "http://localhost:11434"@),
            cfg.gemini_model@ == setting(env.gemini_model, "gemini-2.5-flash"@),
            cfg.grok_model@ == setting(env.grok_model, "grok-2"@),
            cfg.ollama_model@ == setting(env.ollama_model, "llama3.1"@),
    {
        let gemini_keys: Vec<String> = match present(&env.gemini_api_keys) {
            Some(csv) => csv_entry_strings(csv.as_str()),
            None => match present(&env.gemini_api_key) {
                Some(k) => {
                    let mut v: Vec<String> = Vec::new();
                    v.push(k);
                    v
                },
                None => Vec::new(),
            },
        };
        assert(gemini_keys@.map_values(|k: String| k@) =~= gemini_keys_of(env));
        let grok_key = match present(&env.grok_api_key) {
            Some(k) => Some(k),
            None => present(&env.xai_api_key),
        };
        let ollama_host = match present(&env.ollama_host) {
            Some(h) => h,
            None => string_of("http://localhost:11434"),
        };
        let gemini_model = match present(&env.gemini_model) {
            Some(m) => m,
            None => string_of("gemini-2.5-flash"),
        };
        let grok_model = match present(&env.grok_model) {
            Some(m) => m,
            None => string_of("grok-2"),
        };
        let ollama_model = match present(&env.ollama_model) {
            Some(m) => m,
            None => string_of("llama3.1"),
        };
        LlmConfig { gemini_keys, grok_key, ollama_host, gemini_model, grok_model, ollama_model }
    }

    pub fn has_gemini(&self) -> (b: bool)
        ensures
            b == (self.gemini_keys@.len() > 0),
    {
        self.gemini_keys.len() > 0
    }

    pub fn has_grok(&self) -> (b: bool)
        ensures
            b == (self.grok_key is Some),
    {
        self.grok_key.is_some()
    }

    /// The preferred available backend: Gemini with its first key, then Grok,
    /// then the local Ollama server (always available).
    pub fn build_primary(&self) -> (b: LlmBackend)
        ensures
            self.gemini_keys@.len() > 0 ==> b == (LlmBackend::Gemini {
                api_key: self.gemini_keys@[0],
                model: self.gemini_model,
            }),
            self.gemini_keys@.len() == 0 && self.grok_key is Some ==> b == (LlmBackend::Grok {
                api_key: self.grok_key->0,
                model: self.grok_model,
            }),
            self.gemini_keys@.len() == 0 && self.grok_key is None ==> b == (LlmBackend::Ollama {
                host: self.ollama_host,
                model: self.ollama_model,
            }),
    {
        if self.gemini_keys.len() > 0 {
            return LlmBackend::Gemini {
                api_key: self.gemini_keys[0].clone(),
                model: self.gemini_model.clone(),
            };
        }
        if let Some(key) = &self.grok_key {
            return LlmBackend::Grok { api_key: key.clone(), model: self.grok_model.clone() };
        }
        LlmBackend::Ollama { host: self.ollama_host.clone(), model: self.ollama_model.clone() }
    }

    /// A pool over the configured Gemini keys.
    pub fn gemini_pool(&self) -> (p: KeyPool)
        ensures
            p@.keys == self.gemini_keys@.map_values(|k: String| k@),
            p@.banned.is_empty(),
            p@.cursor == 0,
            p@.last is None,
            p@.wf(),
    {
        let keys = self.gemini_keys.clone();
        assert(keys@ == self.gemini_keys@);
        KeyPool::new(keys)
    }
}

} // verus!
