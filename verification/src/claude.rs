//! The adapter for providers that speak the Anthropic interface, or stand in for it.

use vstd::prelude::*;

use crate::json::{json_tree, member_str, object_value, text_value, value_get, JsonTree};
use crate::provider::{
    AuthInfo, AuthStrategy, ConfigProblem, Provider, ProviderModel, ProxyError,
};
use crate::text::{
    ascii_lower, contains_part, contains_text, is_ascii_text, lower_case, lower_text, same_text,
    trim_end_char, trim_end_of, trim_text, trim_white,
};
use crate::url::{join_url, request_url};

verus! {

/// The kinds of provider that the adapter tells apart.
#[derive(Debug, Clone, Copy, PartialEq, Eq, Structural)]
pub enum ProviderType {
    Claude,
    ClaudeAuth,
    OpenRouter,
    GitHubCopilot,
}

pub struct ClaudeAdapter;

/// `first`, or `second` where there is none.
pub open spec fn or_text(first: Option<Seq<char>>, second: Option<Seq<char>>) -> Option<Seq<char>> {
    if first is Some {
        first
    } else {
        second
    }
}

/// `text`, unless it is empty.
pub open spec fn non_empty(text: Option<Seq<char>>) -> Option<Seq<char>> {
    match text {
        Some(text) => if text.len() > 0 {
            Some(text)
        } else {
            None
        },
        None => None,
    }
}

/// The lower case of a text, spelled out where the text is ASCII.
pub open spec fn lowered(text: Seq<char>) -> Seq<char> {
    if is_ascii_text(text) {
        text.map_values(|c: char| ascii_lower(c))
    } else {
        lower_case(text)
    }
}

impl ProviderModel {
    /// The text under `key` in the `env` block of the settings.
    pub open spec fn env_text(self, key: Seq<char>) -> Option<Seq<char>> {
        match self.settings.member("env"@) {
            Some(env) => env.member_text(key),
            None => None,
        }
    }

    /// The base URL as the settings write it: the `env` block first, then three keys in turn.
    pub open spec fn written_base_url(self) -> Option<Seq<char>> {
        or_text(
            self.env_text("ANTHROPIC_BASE_URL"@),
            or_text(
                self.settings.member_text("base_url"@),
                or_text(
                    self.settings.member_text("baseURL"@),
                    self.settings.member_text("apiEndpoint"@),
                ),
            ),
        )
    }

    /// The base URL without slashes at its end.
    pub open spec fn base_url(self) -> Option<Seq<char>> {
        match self.written_base_url() {
            Some(url) => Some(trim_end_of(url, '/')),
            None => None,
        }
    }

    /// The base URL holds `host`.
    pub open spec fn served_by(self, host: Seq<char>) -> bool {
        match self.base_url() {
            Some(url) => contains_text(url, host),
            None => false,
        }
    }

    /// The key outside the `env` block: `apiKey`, and `api_key` only where there is no `apiKey`
    /// at all.
    pub open spec fn settings_key(self) -> Option<Seq<char>> {
        non_empty(
            if self.settings.member("apiKey"@) is Some {
                self.settings.member_text("apiKey"@)
            } else {
                self.settings.member_text("api_key"@)
            },
        )
    }

    /// The first key that is not empty: those of the `env` block in turn, then the one outside.
    pub open spec fn api_key(self) -> Option<Seq<char>> {
        or_text(
            non_empty(self.env_text("ANTHROPIC_AUTH_TOKEN"@)),
            or_text(
                non_empty(self.env_text("ANTHROPIC_API_KEY"@)),
                or_text(
                    non_empty(self.env_text("OPENROUTER_API_KEY"@)),
                    or_text(non_empty(self.env_text("OPENAI_API_KEY"@)), self.settings_key()),
                ),
            ),
        )
    }

    /// The provider is marked as GitHub Copilot, or served by it.
    pub open spec fn is_github_copilot(self) -> bool {
        ||| self.meta matches Some(meta) && meta.provider_type == Some("github_copilot"@)
        ||| self.served_by("githubcopilot.com"@)
    }

    /// The provider is served by OpenRouter.
    pub open spec fn is_openrouter(self) -> bool {
        self.served_by("openrouter.ai"@)
    }

    /// The settings ask for bearer authentication alone.
    pub open spec fn is_bearer_only(self) -> bool {
        ||| self.settings.member_text("auth_mode"@) == Some("bearer_only"@)
        ||| self.env_text("AUTH_MODE"@) == Some("bearer_only"@)
    }

    /// The kind of the provider: the first of the three tests that holds decides.
    pub open spec fn kind(self) -> ProviderType {
        if self.is_github_copilot() {
            ProviderType::GitHubCopilot
        } else if self.is_openrouter() {
            ProviderType::OpenRouter
        } else if self.is_bearer_only() {
            ProviderType::ClaudeAuth
        } else {
            ProviderType::Claude
        }
    }

    /// The interface format that is written down: in the meta data, else in the settings.
    pub open spec fn written_format(self) -> Option<Seq<char>> {
        or_text(
            match self.meta {
                Some(meta) => meta.api_format,
                None => None,
            },
            self.settings.member_text("api_format"@),
        )
    }

    /// The settings switch the compatibility mode on.
    pub open spec fn compat_mode(self) -> bool {
        match self.settings.member("openrouter_compat_mode"@) {
            Some(JsonTree::Bool(flag)) => flag,
            Some(JsonTree::Number(number)) => number matches Some(n) && n != 0,
            Some(JsonTree::Text(text)) => is_switch_on(lowered(trim_white(text))),
            _ => false,
        }
    }

    /// The format of the upstream interface.
    pub open spec fn api_format(self) -> Seq<char> {
        match self.written_format() {
            Some(format) => known_format(format),
            None => if self.compat_mode() {
                "openai_chat"@
            } else {
                "anthropic"@
            },
        }
    }

    /// Requests and replies have to be rewritten for the upstream.
    pub open spec fn needs_transform(self) -> bool {
        ||| self.is_github_copilot()
        ||| self.api_format() == "openai_chat"@
        ||| self.api_format() == "openai_responses"@
    }

    /// The key under which the upstream caches prompts: the one that is set, else the identifier.
    pub open spec fn cache_key(self) -> Seq<char> {
        match self.meta {
            Some(meta) => match meta.prompt_cache_key {
                Some(key) => key,
                None => self.id,
            },
            None => self.id,
        }
    }
}

/// The two OpenAI formats by their names; every other name stands for the Anthropic format.
pub open spec fn known_format(format: Seq<char>) -> Seq<char> {
    if format == "openai_chat"@ || format == "openai_responses"@ {
        format
    } else {
        "anthropic"@
    }
}

/// A normalized switch text that means "on".
pub open spec fn is_switch_on(normalized: Seq<char>) -> bool {
    normalized == "true"@ || normalized == "1"@
}

/// Whether a normalized switch text means "on".
pub fn switch_is_on(normalized: &str) -> (on: bool)
    ensures
        on == is_switch_on(normalized@),
{
    same_text(normalized, "true") || same_text(normalized, "1")
}

/// The format that a written format name stands for.
pub fn format_of_name(name: &str) -> (format: &'static str)
    ensures
        format@ == known_format(name@),
{
    if same_text(name, "openai_chat") {
        "openai_chat"
    } else if same_text(name, "openai_responses") {
        "openai_responses"
    } else {
        "anthropic"
    }
}

/// The format of the upstream interface of `provider`: `openai_chat`, `openai_responses` or
/// `anthropic`.
pub fn get_claude_api_format(provider: &Provider) -> (format: &'static str)
    ensures
        format@ == provider@.api_format(),
{
    if let Some(meta) = &provider.meta {
        if let Some(api_format) = &meta.api_format {
            return format_of_name(api_format.as_str());
        }
    }
    if let Some(api_format) = member_str(&provider.settings_config, "api_format") {
        return format_of_name(api_format);
    }
    let enabled = match value_get(&provider.settings_config, "openrouter_compat_mode") {
        Some(raw) => {
            if let Some(flag) = raw.as_bool() {
                flag
            } else if let Some(number) = raw.as_i64() {
                number != 0
            } else if let Some(text) = raw.as_str() {
                switch_is_on(lower_text(trim_text(text)).as_str())
            } else {
                false
            }
        },
        None => false,
    };
    if enabled {
        "openai_chat"
    } else {
        "anthropic"
    }
}

/// A request header: its name and its value.
pub type Header = (String, String);

/// The names and values of a list of headers.
pub open spec fn header_texts(headers: Seq<Header>) -> Seq<(Seq<char>, Seq<char>)> {
    headers.map_values(|header: Header| (header.0@, header.1@))
}

/// The `Authorization` header that presents `key`.
pub open spec fn bearer_header(key: Seq<char>) -> (Seq<char>, Seq<char>) {
    ("Authorization"@, "Bearer "@ + key)
}

/// The headers that present `key` by `strategy`, in order.
pub open spec fn auth_headers(strategy: AuthStrategy, key: Seq<char>) -> Seq<
    (Seq<char>, Seq<char>),
> {
    match strategy {
        AuthStrategy::Anthropic => seq![bearer_header(key), ("x-api-key"@, key)],
        AuthStrategy::GitHubCopilot => seq![
            bearer_header(key),
            ("Editor-Version"@, "vscode/1.85.0"@),
            ("Editor-Plugin-Version"@, "copilot/1.150.0"@),
            ("Copilot-Integration-Id"@, "vscode-chat"@),
        ],
        _ => seq![bearer_header(key)],
    }
}

/// The strategy by which the key of a provider of this kind is presented.
pub open spec fn strategy_of(kind: ProviderType) -> AuthStrategy {
    match kind {
        ProviderType::GitHubCopilot => AuthStrategy::GitHubCopilot,
        ProviderType::OpenRouter => AuthStrategy::Bearer,
        ProviderType::ClaudeAuth => AuthStrategy::ClaudeAuth,
        ProviderType::Claude => AuthStrategy::Anthropic,
    }
}

/// The key that authenticates requests to `provider`: a placeholder for GitHub Copilot, whose
/// real key is put in later, and the configured key for every other kind.
pub open spec fn auth_key(provider: ProviderModel) -> Option<Seq<char>> {
    if provider.kind() == ProviderType::GitHubCopilot {
        Some("copilot_placeholder"@)
    } else {
        provider.api_key()
    }
}

/// Appends a header to a list.
fn push_header(headers: &mut Vec<Header>, name: &str, value: &str)
    ensures
        header_texts(final(headers)@) == header_texts(old(headers)@).push((name@, value@)),
{
    headers.push((name.to_string(), value.to_string()));
    proof {
        assert(header_texts(headers@) =~= header_texts(old(headers)@).push((name@, value@)));
    }
}

/// `text`, unless it is empty, as a text of its own.
fn owned_non_empty(text: Option<&str>) -> (owned: Option<String>)
    ensures
        match owned {
            Some(owned) => text is Some && non_empty(Some(text->0@)) == Some(owned@),
            None => text is None || non_empty(Some(text->0@)) is None,
        },
{
    match text {
        Some(text) => if text.is_empty() {
            None
        } else {
            Some(text.to_string())
        },
        None => None,
    }
}

/// How the body of a request is rewritten for the upstream.
pub enum RequestTransform {
    /// Into a request of the OpenAI Responses interface.
    ToResponses { body: serde_json::Value, cache_key: String },
    /// Into a request of the OpenAI Chat interface.
    ToChat { body: serde_json::Value, cache_key: String, stream_include_usage: bool },
}

/// How the body of a reply is rewritten for the client.
pub enum ResponseTransform {
    /// The reply is an error report, and this is the report in the Anthropic format.
    ErrorReport(serde_json::Value),
    /// From a reply of the OpenAI Responses interface.
    FromResponses(serde_json::Value),
    /// From a reply of the OpenAI Chat interface.
    FromChat(serde_json::Value),
}

/// `body` reports an error and holds no answer.
pub open spec fn is_error_reply(body: JsonTree) -> bool {
    &&& body.member("error"@) is Some
    &&& body.member("choices"@) is None
    &&& body.member("output"@) is None
}

/// The text under `key` in the error that `body` reports, or `fallback`.
pub open spec fn error_detail(body: JsonTree, key: Seq<char>, fallback: Seq<char>) -> Seq<char> {
    match body.member("error"@) {
        Some(error) => match error.member_text(key) {
            Some(text) => text,
            None => fallback,
        },
        None => fallback,
    }
}

/// An error report in the Anthropic format.
pub open spec fn anthropic_error(kind: Seq<char>, message: Seq<char>) -> JsonTree {
    JsonTree::Object(
        map![
            "type"@ => JsonTree::Text("error"@),
            "error"@ => JsonTree::Object(
                map!["type"@ => JsonTree::Text(kind), "message"@ => JsonTree::Text(message)],
            ),
        ],
    )
}

/// The error report in the Anthropic format for an upstream error `body`.
pub open spec fn translated_error(body: JsonTree) -> JsonTree {
    anthropic_error(
        error_detail(body, "type"@, "invalid_request_error"@),
        error_detail(body, "message"@, "Upstream error"@),
    )
}

impl ClaudeAdapter {
    pub fn new() -> (adapter: ClaudeAdapter)
        ensures
            adapter == ClaudeAdapter,
    {
        ClaudeAdapter
    }

    /// The kind of `provider`.
    pub fn provider_type(&self, provider: &Provider) -> (kind: ProviderType)
        ensures
            kind == provider@.kind(),
    {
        if self.is_github_copilot(provider) {
            return ProviderType::GitHubCopilot;
        }
        if self.is_openrouter(provider) {
            return ProviderType::OpenRouter;
        }
        if self.is_bearer_only_mode(provider) {
            return ProviderType::ClaudeAuth;
        }
        ProviderType::Claude
    }

    fn is_openrouter(&self, provider: &Provider) -> (yes: bool)
        ensures
            yes == provider@.is_openrouter(),
    {
        match self.extract_base_url(provider) {
            Ok(base_url) => contains_part(base_url.as_str(), "openrouter.ai"),
            Err(_) => false,
        }
    }

    fn is_github_copilot(&self, provider: &Provider) -> (yes: bool)
        ensures
            yes == provider@.is_github_copilot(),
    {
        if let Some(meta) = &provider.meta {
            if let Some(provider_type) = &meta.provider_type {
                if same_text(provider_type.as_str(), "github_copilot") {
                    return true;
                }
            }
        }
        match self.extract_base_url(provider) {
            Ok(base_url) => contains_part(base_url.as_str(), "githubcopilot.com"),
            Err(_) => false,
        }
    }

    fn get_api_format(&self, provider: &Provider) -> (format: &'static str)
        ensures
            format@ == provider@.api_format(),
    {
        get_claude_api_format(provider)
    }

    fn is_bearer_only_mode(&self, provider: &Provider) -> (yes: bool)
        ensures
            yes == provider@.is_bearer_only(),
    {
        if let Some(auth_mode) = member_str(&provider.settings_config, "auth_mode") {
            if same_text(auth_mode, "bearer_only") {
                return true;
            }
        }
        if let Some(env) = value_get(&provider.settings_config, "env") {
            if let Some(auth_mode) = member_str(env, "AUTH_MODE") {
                if same_text(auth_mode, "bearer_only") {
                    return true;
                }
            }
        }
        false
    }

    /// The first configured key of `provider` that is not empty.
    pub fn extract_key(&self, provider: &Provider) -> (key: Option<String>)
        ensures
            match key {
                Some(key) => provider@.api_key() == Some(key@),
                None => provider@.api_key() is None,
            },
    {
        if let Some(env) = value_get(&provider.settings_config, "env") {
            if let Some(key) = owned_non_empty(member_str(env, "ANTHROPIC_AUTH_TOKEN")) {
                return Some(key);
            }
            if let Some(key) = owned_non_empty(member_str(env, "ANTHROPIC_API_KEY")) {
                return Some(key);
            }
            if let Some(key) = owned_non_empty(member_str(env, "OPENROUTER_API_KEY")) {
                return Some(key);
            }
            if let Some(key) = owned_non_empty(member_str(env, "OPENAI_API_KEY")) {
                return Some(key);
            }
        }
        match value_get(&provider.settings_config, "apiKey") {
            Some(value) => owned_non_empty(value.as_str()),
            None => owned_non_empty(member_str(&provider.settings_config, "api_key")),
        }
    }

    /// The base URL of `provider`, without slashes at its end.
    pub fn extract_base_url(&self, provider: &Provider) -> (url: Result<String, ProxyError>)
        ensures
            match url {
                Ok(url) => provider@.base_url() == Some(url@),
                Err(error) => provider@.base_url() is None && error == ProxyError::ConfigError(
                    ConfigProblem::MissingBaseUrl,
                ),
            },
    {
        if let Some(env) = value_get(&provider.settings_config, "env") {
            if let Some(url) = member_str(env, "ANTHROPIC_BASE_URL") {
                return Ok(trim_end_char(url, '/').to_string());
            }
        }
        if let Some(url) = member_str(&provider.settings_config, "base_url") {
            return Ok(trim_end_char(url, '/').to_string());
        }
        if let Some(url) = member_str(&provider.settings_config, "baseURL") {
            return Ok(trim_end_char(url, '/').to_string());
        }
        if let Some(url) = member_str(&provider.settings_config, "apiEndpoint") {
            return Ok(trim_end_char(url, '/').to_string());
        }
        Err(ProxyError::ConfigError(ConfigProblem::MissingBaseUrl))
    }

    /// The key of `provider` and the way to present it.
    pub fn extract_auth(&self, provider: &Provider) -> (auth: Option<AuthInfo>)
        ensures
            match auth {
                Some(auth) => auth_key(provider@) == Some(auth.api_key@) && auth.strategy
                    == strategy_of(provider@.kind()),
                None => auth_key(provider@) is None,
            },
    {
        let provider_type = self.provider_type(provider);
        if provider_type == ProviderType::GitHubCopilot {
            return Some(
                AuthInfo::new("copilot_placeholder".to_string(), AuthStrategy::GitHubCopilot),
            );
        }
        let strategy = match provider_type {
            ProviderType::OpenRouter => AuthStrategy::Bearer,
            ProviderType::ClaudeAuth => AuthStrategy::ClaudeAuth,
            _ => AuthStrategy::Anthropic,
        };
        match self.extract_key(provider) {
            Some(key) => Some(AuthInfo::new(key, strategy)),
            None => None,
        }
    }

    /// The URL of `endpoint` under `base_url`.
    pub fn build_url(&self, base_url: &str, endpoint: &str) -> (url: String)
        ensures
            url@ == request_url(base_url@, endpoint@),
    {
        join_url(base_url, endpoint)
    }

    /// The headers of a request, with those that present `auth` added.
    pub fn add_auth_headers(&self, request: Vec<Header>, auth: &AuthInfo) -> (headers: Vec<Header>)
        ensures
            header_texts(headers@) == header_texts(request@) + auth_headers(
                auth.strategy,
                auth.api_key@,
            ),
    {
        let mut headers = request;
        let mut bearer = "Bearer ".to_string();
        bearer.append(auth.api_key.as_str());
        push_header(&mut headers, "Authorization", bearer.as_str());
        match auth.strategy {
            AuthStrategy::Anthropic => {
                push_header(&mut headers, "x-api-key", auth.api_key.as_str());
            },
            AuthStrategy::GitHubCopilot => {
                push_header(&mut headers, "Editor-Version", "vscode/1.85.0");
                push_header(&mut headers, "Editor-Plugin-Version", "copilot/1.150.0");
                push_header(&mut headers, "Copilot-Integration-Id", "vscode-chat");
            },
            _ => {},
        }
        proof {
            assert(header_texts(headers@) =~= header_texts(request@) + auth_headers(
                auth.strategy,
                auth.api_key@,
            ));
        }
        headers
    }

    /// Whether requests to `provider` and its replies have to be rewritten.
    pub fn needs_transform(&self, provider: &Provider) -> (yes: bool)
        ensures
            yes == provider@.needs_transform(),
    {
        if self.is_github_copilot(provider) {
            return true;
        }
        let format = self.get_api_format(provider);
        same_text(format, "openai_chat") || same_text(format, "openai_responses")
    }

    /// How the body of a request to `provider` is rewritten.
    pub fn transform_request(&self, body: serde_json::Value, provider: &Provider) -> (transform:
        RequestTransform)
        ensures
            match transform {
                RequestTransform::ToResponses { body: taken, cache_key } => {
                    &&& provider@.api_format() == "openai_responses"@
                    &&& taken == body
                    &&& cache_key@ == provider@.cache_key()
                },
                RequestTransform::ToChat { body: taken, cache_key, stream_include_usage } => {
                    &&& provider@.api_format() != "openai_responses"@
                    &&& taken == body
                    &&& cache_key@ == provider@.cache_key()
                    &&& stream_include_usage == provider@.stream_include_usage
                },
            },
    {
        let cache_key = match &provider.meta {
            Some(meta) => match &meta.prompt_cache_key {
                Some(key) => key.clone(),
                None => provider.id.clone(),
            },
            None => provider.id.clone(),
        };
        let api_format = self.get_api_format(provider);
        let stream_include_usage = provider.stream_include_usage();
        if same_text(api_format, "openai_responses") {
            RequestTransform::ToResponses { body, cache_key }
        } else {
            RequestTransform::ToChat { body, cache_key, stream_include_usage }
        }
    }

    /// How the body of a reply is rewritten.
    pub fn transform_response(&self, body: serde_json::Value) -> (transform: ResponseTransform)
        ensures
            match transform {
                ResponseTransform::ErrorReport(report) => is_error_reply(json_tree(body))
                    && json_tree(report) == translated_error(json_tree(body)),
                ResponseTransform::FromResponses(taken) => json_tree(body).member("output"@) is Some
                    && taken == body,
                ResponseTransform::FromChat(taken) => json_tree(body).member("output"@) is None
                    && !is_error_reply(json_tree(body)) && taken == body,
            },
    {
        if value_get(&body, "error").is_some() && value_get(&body, "choices").is_none()
            && value_get(&body, "output").is_none() {
            return ResponseTransform::ErrorReport(openai_error_to_anthropic(body));
        }
        if value_get(&body, "output").is_some() {
            ResponseTransform::FromResponses(body)
        } else {
            ResponseTransform::FromChat(body)
        }
    }
}

impl Default for ClaudeAdapter {
    fn default() -> (adapter: ClaudeAdapter)
        ensures
            adapter == ClaudeAdapter,
    {
        ClaudeAdapter::new()
    }
}

/// The text under `key` in the error that `body` reports, or `fallback`.
fn error_text<'a>(body: &'a serde_json::Value, key: &str, fallback: &'a str) -> (text: &'a str)
    ensures
        text@ == error_detail(json_tree(*body), key@, fallback@),
{
    match value_get(body, "error") {
        Some(error) => match member_str(error, key) {
            Some(text) => text,
            None => fallback,
        },
        None => fallback,
    }
}

/// The error report in the Anthropic format for an upstream error `body`.
pub fn openai_error_to_anthropic(body: serde_json::Value) -> (report: serde_json::Value)
    ensures
        json_tree(report) == translated_error(json_tree(body)),
{
    let message = error_text(&body, "message", "Upstream error");
    let error_type = error_text(&body, "type", "invalid_request_error");
    let mut error = serde_json::Map::new();
    error.insert("type".to_string(), text_value(error_type));
    error.insert("message".to_string(), text_value(message));
    let mut report = serde_json::Map::new();
    report.insert("type".to_string(), text_value("error"));
    report.insert("error".to_string(), object_value(error));
    object_value(report)
}

} // verus!
