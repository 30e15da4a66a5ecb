//! Providers, their credentials and the errors of the proxy.

use vstd::prelude::*;

use crate::json::{json_tree, JsonTree};

verus! {

/// The characters of a text that may be missing.
pub open spec fn optional_text(text: Option<String>) -> Option<Seq<char>> {
    match text {
        Some(text) => Some(text@),
        None => None,
    }
}

/// What a provider says of itself beside its settings.
#[derive(Debug)]
pub struct ProviderMeta {
    /// The format of the upstream interface.
    pub api_format: Option<String>,
    /// The kind of provider, where it is set by hand.
    pub provider_type: Option<String>,
    /// The key under which the upstream caches prompts.
    pub prompt_cache_key: Option<String>,
}

/// The model of [`ProviderMeta`].
pub struct MetaModel {
    pub api_format: Option<Seq<char>>,
    pub provider_type: Option<Seq<char>>,
    pub prompt_cache_key: Option<Seq<char>>,
}

impl View for ProviderMeta {
    type V = MetaModel;

    open spec fn view(&self) -> MetaModel {
        MetaModel {
            api_format: optional_text(self.api_format),
            provider_type: optional_text(self.provider_type),
            prompt_cache_key: optional_text(self.prompt_cache_key),
        }
    }
}

/// An upstream to which requests can be sent.
#[derive(Debug)]
pub struct Provider {
    pub id: String,
    pub name: String,
    /// The settings as the user wrote them.
    pub settings_config: serde_json::Value,
    pub meta: Option<ProviderMeta>,
    /// Whether streamed replies are asked to report usage.
    pub stream_include_usage: bool,
}

/// The model of [`Provider`].
pub struct ProviderModel {
    pub id: Seq<char>,
    pub name: Seq<char>,
    pub settings: JsonTree,
    pub meta: Option<MetaModel>,
    pub stream_include_usage: bool,
}

impl View for Provider {
    type V = ProviderModel;

    open spec fn view(&self) -> ProviderModel {
        ProviderModel {
            id: self.id@,
            name: self.name@,
            settings: json_tree(self.settings_config),
            meta: match self.meta {
                Some(meta) => Some(meta@),
                None => None,
            },
            stream_include_usage: self.stream_include_usage,
        }
    }
}

impl Clone for ProviderMeta {
    fn clone(&self) -> (copy: ProviderMeta)
        ensures
            copy == *self,
    {
        ProviderMeta {
            api_format: self.api_format.clone(),
            provider_type: self.provider_type.clone(),
            prompt_cache_key: self.prompt_cache_key.clone(),
        }
    }
}

impl Clone for Provider {
    fn clone(&self) -> (copy: Provider)
        ensures
            copy == *self,
    {
        Provider {
            id: self.id.clone(),
            name: self.name.clone(),
            settings_config: self.settings_config.clone(),
            meta: self.meta.clone(),
            stream_include_usage: self.stream_include_usage,
        }
    }
}

impl Provider {
    /// Whether streamed replies are asked to report usage.
    pub fn stream_include_usage(&self) -> (flag: bool)
        ensures
            flag == self@.stream_include_usage,
    {
        self.stream_include_usage
    }
}

/// How a request proves who sends it.
#[derive(Clone, Copy, Debug, PartialEq, Eq, Structural)]
pub enum AuthStrategy {
    Anthropic,
    ClaudeAuth,
    Bearer,
    Google,
    GoogleOAuth,
    GitHubCopilot,
}

/// A key and the way to present it.
#[derive(Debug)]
pub struct AuthInfo {
    pub api_key: String,
    pub strategy: AuthStrategy,
}

impl AuthInfo {
    pub fn new(api_key: String, strategy: AuthStrategy) -> (auth: AuthInfo)
        ensures
            auth.api_key == api_key,
            auth.strategy == strategy,
    {
        AuthInfo { api_key, strategy }
    }
}

/// What is wrong with the configuration of a provider.
#[derive(Clone, Copy, Debug, PartialEq, Eq, Structural)]
pub enum ConfigProblem {
    /// No base URL is configured.
    MissingBaseUrl,
}

impl ConfigProblem {
    /// The message for a problem that the adapter of this name reports: the name comes first.
    pub fn message(self, adapter_name: &str) -> (text: String)
        ensures
            text@ == (match self {
                ConfigProblem::MissingBaseUrl => adapter_name@ + " Provider 缺少 base_url 配置"@,
            }),
    {
        let mut text = adapter_name.to_string();
        match self {
            ConfigProblem::MissingBaseUrl => text.append(" Provider 缺少 base_url 配置"),
        }
        text
    }
}

/// What can go wrong on the way to an upstream.
#[derive(Debug)]
pub enum ProxyError {
    DatabaseError(String),
    ConfigError(ConfigProblem),
    AllProvidersCircuitOpen,
    NoProvidersConfigured,
}

impl Clone for ProxyError {
    fn clone(&self) -> (copy: ProxyError)
        ensures
            copy == *self,
    {
        match self {
            ProxyError::DatabaseError(message) => ProxyError::DatabaseError(message.clone()),
            ProxyError::ConfigError(problem) => ProxyError::ConfigError(*problem),
            ProxyError::AllProvidersCircuitOpen => ProxyError::AllProvidersCircuitOpen,
            ProxyError::NoProvidersConfigured => ProxyError::NoProvidersConfigured,
        }
    }
}

} // verus!
