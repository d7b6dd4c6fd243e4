//! Which provider client an API configuration makes, and where that client
//! sends its requests.

use vstd::prelude::*;
use crate::log_format::ApiConfig;
use crate::text::{chars_to_string, join_str, str_chars, str_eq, sub_chars};

verus! {

/// The kinds of provider client.
#[derive(Debug, Clone, Copy, PartialEq, Eq)]
pub enum ProviderKind {
    OpenAIChat,
    OpenAIResponses,
    Anthropic,
    Gemini,
    DeepSeek,
    ClaudeCode,
}

/// A provider client as configured: its kind, the base URL its requests go
/// to, its key and its default model.
#[derive(Debug, Clone)]
pub struct ProviderEndpoint {
    pub kind: ProviderKind,
    pub base_url: String,
    pub api_key: String,
    pub model: String,
}

pub open spec fn provider_kind_of(name: Seq<char>) -> Option<ProviderKind> {
    if name == "openai_chat"@ {
        Some(ProviderKind::OpenAIChat)
    } else if name == "openai_responses"@ {
        Some(ProviderKind::OpenAIResponses)
    } else if name == "anthropic"@ {
        Some(ProviderKind::Anthropic)
    } else if name == "gemini"@ {
        Some(ProviderKind::Gemini)
    } else if name == "deepseek"@ {
        Some(ProviderKind::DeepSeek)
    } else if name == "claude_code"@ {
        Some(ProviderKind::ClaudeCode)
    } else {
        None
    }
}

/// The base URL a client of each kind uses where none is configured.
pub open spec fn client_default_base(kind: ProviderKind) -> Seq<char> {
    match kind {
        ProviderKind::OpenAIChat => "https://api.openai.com/v1"@,
        ProviderKind::OpenAIResponses => "https://api.openai.com/v1"@,
        ProviderKind::Anthropic => "https://api.anthropic.com/v1"@,
        ProviderKind::Gemini => "https://generativelanguage.googleapis.com/v1beta"@,
        ProviderKind::DeepSeek => "https://api.deepseek.com/v1"@,
        ProviderKind::ClaudeCode => "http://localhost:8080"@,
    }
}

/// `s.trim_end_matches('/')`.
pub open spec fn trim_slashes(s: Seq<char>) -> Seq<char>
    decreases s.len(),
{
    if s.len() > 0 && s.last() == '/' {
        trim_slashes(s.drop_last())
    } else {
        s
    }
}

/// The base URL of a client: the configured one, else its kind's default;
/// the agent server's without trailing slashes.
pub open spec fn client_base_url(kind: ProviderKind, configured: Option<Seq<char>>) -> Seq<char> {
    let base = match configured {
        Some(u) => u,
        None => client_default_base(kind),
    };
    if kind == ProviderKind::ClaudeCode {
        trim_slashes(base)
    } else {
        base
    }
}

/// `s.trim_end_matches('/')`.
pub fn trim_trailing_slashes(s: &str) -> (r: String)
    ensures
        r@ == trim_slashes(s@),
{
    let mut v = str_chars(s);
    while v.len() > 0 && v[v.len() - 1] == '/'
        invariant
            trim_slashes(v@) == trim_slashes(s@),
        decreases v.len(),
    {
        v = sub_chars(&v, 0, v.len() - 1);
        assert(v@ =~= v@);
    }
    chars_to_string(&v)
}

fn default_base(kind: ProviderKind) -> (r: String)
    ensures
        r@ == client_default_base(kind),
{
    match kind {
        ProviderKind::OpenAIChat => "https://api.openai.com/v1".to_owned(),
        ProviderKind::OpenAIResponses => "https://api.openai.com/v1".to_owned(),
        ProviderKind::Anthropic => "https://api.anthropic.com/v1".to_owned(),
        ProviderKind::Gemini => "https://generativelanguage.googleapis.com/v1beta".to_owned(),
        ProviderKind::DeepSeek => "https://api.deepseek.com/v1".to_owned(),
        ProviderKind::ClaudeCode => "http://localhost:8080".to_owned(),
    }
}

/// The kind of client a provider name makes.
pub fn provider_kind(name: &str) -> (r: Result<ProviderKind, String>)
    ensures
        match provider_kind_of(name@) {
            Some(k) => r matches Ok(x) && x == k,
            None => r matches Err(e) && e@ == "Unknown provider: "@ + name@,
        },
{
    if str_eq(name, "openai_chat") {
        Ok(ProviderKind::OpenAIChat)
    } else if str_eq(name, "openai_responses") {
        Ok(ProviderKind::OpenAIResponses)
    } else if str_eq(name, "anthropic") {
        Ok(ProviderKind::Anthropic)
    } else if str_eq(name, "gemini") {
        Ok(ProviderKind::Gemini)
    } else if str_eq(name, "deepseek") {
        Ok(ProviderKind::DeepSeek)
    } else if str_eq(name, "claude_code") {
        Ok(ProviderKind::ClaudeCode)
    } else {
        Err(join_str("Unknown provider: ", name))
    }
}

/// The client an API configuration makes: the kind its provider names, the
/// base URL it configures or the kind's default, its key (empty where none
/// is configured) and its model; an unknown provider is refused.
pub fn create_provider(config: &ApiConfig) -> (r: Result<ProviderEndpoint, String>)
    ensures
        match provider_kind_of(config.provider@) {
            Some(k) => r matches Ok(p) && p.kind == k && p.base_url@ == client_base_url(
                k,
                match config.base_url {
                    Some(u) => Some(u@),
                    None => None,
                },
            ) && p.api_key@ == (match config.api_key {
                Some(a) => a@,
                None => Seq::<char>::empty(),
            }) && p.model == config.model,
            None => r matches Err(e) && e@ == "Unknown provider: "@ + config.provider@,
        },
{
    let kind = provider_kind(config.provider.as_str())?;
    let base = match &config.base_url {
        Some(u) => u.clone(),
        None => default_base(kind),
    };
    let base_url = match kind {
        ProviderKind::ClaudeCode => trim_trailing_slashes(base.as_str()),
        _ => base,
    };
    let api_key = match &config.api_key {
        Some(a) => a.clone(),
        None => String::new(),
    };
    Ok(ProviderEndpoint { kind, base_url, api_key, model: config.model.clone() })
}

} // verus!
