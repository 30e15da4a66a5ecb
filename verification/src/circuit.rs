//! The keys and the configuration of circuit breakers.

use vstd::prelude::*;

use crate::text::{before_first, split_at_first};

verus! {

/// The key of the circuit breaker of a provider: the application, a colon and the provider.
pub open spec fn circuit_key_of(app_type: Seq<char>, provider_id: Seq<char>) -> Seq<char> {
    app_type + seq![':'] + provider_id
}

/// The key of the circuit breaker of `provider_id` in `app_type`.
pub fn circuit_key(app_type: &str, provider_id: &str) -> (key: String)
    ensures
        key@ == circuit_key_of(app_type@, provider_id@),
{
    let mut key = app_type.to_string();
    key.append(":");
    key.append(provider_id);
    proof {
        reveal_strlit(":");
        assert(":"@ =~= seq![':']);
    }
    key
}

/// Reading up to the first mark gives the part before it.
pub(crate) proof fn lemma_before_first(before: Seq<char>, mark: char, after: Seq<char>)
    requires
        !before.contains(mark),
    ensures
        before_first(before + seq![mark] + after, mark) == before,
    decreases before.len(),
{
    let text = before + seq![mark] + after;
    if before.len() == 0 {
        assert(text[0] == mark);
        assert(before =~= Seq::empty());
    } else {
        assert(before.contains(before[0]));
        assert(text[0] == before[0]);
        assert forall|i: int| 0 <= i < before.skip(1).len() implies before.skip(1)[i] != mark by {
            assert(before.contains(before[i + 1]));
        }
        lemma_before_first(before.skip(1), mark, after);
        assert(text.skip(1) =~= before.skip(1) + seq![mark] + after);
        assert(seq![before[0]] + before.skip(1) =~= before);
    }
}

/// Without a mark, all of the text stands before it.
pub(crate) proof fn lemma_before_none(text: Seq<char>, mark: char)
    requires
        !text.contains(mark),
    ensures
        before_first(text, mark) == text,
    decreases text.len(),
{
    if text.len() > 0 {
        assert(text.contains(text[0]));
        assert forall|i: int| 0 <= i < text.skip(1).len() implies text.skip(1)[i] != mark by {
            assert(text.contains(text[i + 1]));
        }
        lemma_before_none(text.skip(1), mark);
        assert(seq![text[0]] + text.skip(1) =~= text);
    }
}

/// The application that a circuit breaker key belongs to: what stands before the first colon.
pub fn app_type_of_key(key: &str) -> (app_type: &str)
    ensures
        app_type@ == before_first(key@, ':'),
{
    match split_at_first(key, ':') {
        Some((app_type, rest)) => {
            proof {
                lemma_before_first(app_type@, ':', rest@);
            }
            app_type
        },
        None => {
            proof {
                lemma_before_none(key@, ':');
            }
            key
        },
    }
}

/// The key of a circuit breaker gives back the application that it was made for, where the name
/// of the application holds no colon.
pub proof fn law_key_gives_back_app_type(app_type: Seq<char>, provider_id: Seq<char>)
    requires
        !app_type.contains(':'),
    ensures
        before_first(circuit_key_of(app_type, provider_id), ':') == app_type,
{
    lemma_before_first(app_type, ':', provider_id);
}

/// No two providers share a circuit breaker: keys differ unless both the application and the
/// provider are the same, where the names of the applications hold no colon.
pub proof fn law_keys_are_apart(
    app_type: Seq<char>,
    provider_id: Seq<char>,
    other_app_type: Seq<char>,
    other_provider_id: Seq<char>,
)
    requires
        !app_type.contains(':'),
        !other_app_type.contains(':'),
        circuit_key_of(app_type, provider_id) == circuit_key_of(other_app_type, other_provider_id),
    ensures
        app_type == other_app_type,
        provider_id == other_provider_id,
{
    law_key_gives_back_app_type(app_type, provider_id);
    law_key_gives_back_app_type(other_app_type, other_provider_id);
    let key = circuit_key_of(app_type, provider_id);
    assert(provider_id =~= key.skip(app_type.len() as int + 1));
    assert(other_provider_id =~= key.skip(app_type.len() as int + 1));
}

/// The limits by which a circuit breaker opens and closes. The error rate is held by its bits.
#[derive(Clone, Copy, Debug, PartialEq, Eq, Structural)]
pub struct CircuitBreakerConfig {
    pub failure_threshold: u32,
    pub success_threshold: u32,
    pub timeout_seconds: u64,
    pub error_rate_threshold_bits: u64,
    pub min_requests: u32,
}

/// The part of the proxy configuration of an application that concerns circuit breakers. The
/// error rate is held by its bits.
#[derive(Clone, Copy, Debug, PartialEq, Eq, Structural)]
pub struct AppProxyConfig {
    pub auto_failover_enabled: bool,
    pub circuit_failure_threshold: u32,
    pub circuit_success_threshold: u32,
    pub circuit_timeout_seconds: u32,
    pub circuit_error_rate_threshold_bits: u64,
    pub circuit_min_requests: u32,
}

/// The limits of a new circuit breaker: those of the application, or `default` where the
/// configuration of the application cannot be read.
pub fn breaker_config(app_config: Option<AppProxyConfig>, default: CircuitBreakerConfig) -> (config:
    CircuitBreakerConfig)
    ensures
        match app_config {
            Some(app_config) => {
                &&& config.failure_threshold == app_config.circuit_failure_threshold
                &&& config.success_threshold == app_config.circuit_success_threshold
                &&& config.timeout_seconds == app_config.circuit_timeout_seconds
                &&& config.error_rate_threshold_bits == app_config.circuit_error_rate_threshold_bits
                &&& config.min_requests == app_config.circuit_min_requests
            },
            None => config == default,
        },
{
    match app_config {
        Some(app_config) => CircuitBreakerConfig {
            failure_threshold: app_config.circuit_failure_threshold,
            success_threshold: app_config.circuit_success_threshold,
            timeout_seconds: app_config.circuit_timeout_seconds as u64,
            error_rate_threshold_bits: app_config.circuit_error_rate_threshold_bits,
            min_requests: app_config.circuit_min_requests,
        },
        None => default,
    }
}

} // verus!
