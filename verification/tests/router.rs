use notify::event::{AccessKind, CreateKind, ModifyKind, RemoveKind};
use notify::EventKind;
use provider_routing::circuit::{
    app_type_of_key, breaker_config, circuit_key, AppProxyConfig, CircuitBreakerConfig,
};
use provider_routing::provider::{Provider, ProxyError};
use provider_routing::router::{
    health_recorded, BreakerCall, BreakerLookup, CacheLookup, LoadStep, ProviderRouter,
};
use provider_routing::selection::{SelectionReplies, SelectionStep};
use provider_routing::string_map::StringMap;
use provider_routing::watch::{is_provider_change, watched_app_types, AppType};

fn provider(id: &str) -> Provider {
    Provider {
        id: id.to_string(),
        name: format!("Provider {id}"),
        settings_config: serde_json::Value::Null,
        meta: None,
        stream_include_usage: false,
    }
}

fn new_router() -> ProviderRouter<u32> {
    ProviderRouter::new()
}

fn served(router: &ProviderRouter<u32>, app_type: &str) -> Option<String> {
    match router.get_cached_current_provider(app_type) {
        CacheLookup::Hit(provider) => Some(provider.id),
        CacheLookup::Load { .. } => None,
    }
}

fn modify() -> EventKind {
    EventKind::Modify(ModifyKind::Any)
}

fn limits() -> CircuitBreakerConfig {
    CircuitBreakerConfig {
        failure_threshold: 1,
        success_threshold: 2,
        timeout_seconds: 3,
        error_rate_threshold_bits: 0.5f64.to_bits(),
        min_requests: 4,
    }
}

fn app_config() -> AppProxyConfig {
    AppProxyConfig {
        auto_failover_enabled: true,
        circuit_failure_threshold: 7,
        circuit_success_threshold: 8,
        circuit_timeout_seconds: 9,
        circuit_error_rate_threshold_bits: 0.25f64.to_bits(),
        circuit_min_requests: 10,
    }
}

#[test]
fn a_new_router_has_to_load() {
    let router = new_router();
    assert_eq!(router.cache_version(), 0);
    assert!(matches!(
        router.get_cached_current_provider("codex"),
        CacheLookup::Load { version: 0 }
    ));
}

#[test]
fn a_stored_provider_is_served() {
    let mut router = new_router();
    let current = router.store_current_provider("codex", 0, Ok(Some(provider("a"))));
    assert!(matches!(current, Ok(Some(p)) if p.id == "a"));
    assert_eq!(served(&router, "codex").as_deref(), Some("a"));
    assert_eq!(served(&router, "opencode"), None);
    let current = router.store_current_provider("codex", 0, Ok(Some(provider("b"))));
    assert!(matches!(current, Ok(Some(p)) if p.id == "b"));
    assert_eq!(served(&router, "codex").as_deref(), Some("b"));
}

#[test]
fn a_missing_provider_is_forgotten_and_a_failure_is_not_stored() {
    let mut router = new_router();
    let _ = router.store_current_provider("codex", 0, Ok(Some(provider("a"))));
    let failed = router.store_current_provider(
        "codex",
        0,
        Err(ProxyError::DatabaseError("locked".to_string())),
    );
    assert!(matches!(failed, Err(ProxyError::DatabaseError(m)) if m == "locked"));
    assert_eq!(served(&router, "codex").as_deref(), Some("a"));
    assert!(matches!(router.store_current_provider("codex", 0, Ok(None)), Ok(None)));
    assert_eq!(served(&router, "codex"), None);
}

#[test]
fn a_change_signal_outdates_the_cache() {
    let mut router = new_router();
    let _ = router.store_current_provider("codex", 0, Ok(Some(provider("a"))));
    assert_eq!(router.handle_watch_event(&modify()), Some(1));
    assert_eq!(served(&router, "codex"), None);
    assert!(matches!(
        router.get_cached_current_provider("codex"),
        CacheLookup::Load { version: 1 }
    ));
}

#[test]
fn a_late_store_is_not_served() {
    let mut router = new_router();
    let _ = router.handle_watch_event(&modify());
    let current = router.store_current_provider("codex", 0, Ok(Some(provider("old"))));
    assert!(matches!(current, Ok(Some(p)) if p.id == "old"));
    assert_eq!(served(&router, "codex"), None);
}

#[test]
fn a_refresh_serves_what_was_found() {
    let mut router = new_router();
    for app_type in ["codex", "opencode", "gemini"] {
        let _ = router.store_current_provider(app_type, 0, Ok(Some(provider("old"))));
    }
    let version = router.handle_watch_event(&modify()).expect("a change");
    router.preload_all(
        version,
        vec![
            ("codex".to_string(), Ok(Some(provider("new")))),
            ("opencode".to_string(), Ok(None)),
            ("gemini".to_string(), Err(ProxyError::DatabaseError("x".to_string()))),
        ],
    );
    assert_eq!(served(&router, "codex").as_deref(), Some("new"));
    assert_eq!(served(&router, "opencode"), None);
    assert_eq!(served(&router, "gemini"), None);
}

#[test]
fn only_writes_and_creations_are_signals() {
    assert!(is_provider_change(&modify()));
    assert!(is_provider_change(&EventKind::Create(CreateKind::File)));
    assert!(!is_provider_change(&EventKind::Access(AccessKind::Any)));
    assert!(!is_provider_change(&EventKind::Remove(RemoveKind::File)));
    assert!(!is_provider_change(&EventKind::Any));
    assert!(!is_provider_change(&EventKind::Other));
    let mut router = new_router();
    assert_eq!(router.handle_watch_event(&EventKind::Other), None);
    assert_eq!(router.cache_version(), 0);
    assert_eq!(router.handle_watch_event(&EventKind::Create(CreateKind::Any)), Some(1));
}

#[test]
fn five_applications_are_watched() {
    assert_eq!(
        watched_app_types(),
        vec![AppType::Claude, AppType::Codex, AppType::Gemini, AppType::OpenCode, AppType::OpenClaw]
    );
}

#[test]
fn the_current_provider_is_loaded_in_two_reads() {
    let load = ProviderRouter::<u32>::load_current_provider;
    assert!(matches!(
        load(Err("no table".to_string()), None),
        LoadStep::Done(Err(ProxyError::DatabaseError(m))) if m == "no table"
    ));
    assert!(matches!(load(Ok(None), None), LoadStep::Done(Ok(None))));
    assert!(matches!(
        load(Ok(Some("a".to_string())), None),
        LoadStep::ReadProvider { id } if id == "a"
    ));
    assert!(matches!(
        load(Ok(Some("a".to_string())), Some(Ok(Some(provider("a"))))),
        LoadStep::Done(Ok(Some(p))) if p.id == "a"
    ));
    assert!(matches!(load(Ok(Some("a".to_string())), Some(Ok(None))), LoadStep::Done(Ok(None))));
    assert!(matches!(
        load(Ok(Some("a".to_string())), Some(Err("locked".to_string()))),
        LoadStep::Done(Err(ProxyError::DatabaseError(m))) if m == "locked"
    ));
}

fn failover(known: &[&str], queue: &[&str]) -> SelectionReplies {
    let mut all = StringMap::new();
    for id in known {
        all.insert(id.to_string(), provider(id));
    }
    let mut replies = SelectionReplies::new();
    replies.auto_failover_enabled = Some(Ok(true));
    replies.all_providers = Some(Ok(all));
    replies.failover_queue = Some(Ok(queue.iter().map(|id| id.to_string()).collect()));
    replies
}

fn run(mut replies: SelectionReplies, open: &[&str]) -> (Vec<String>, Result<Vec<String>, ProxyError>) {
    let router = new_router();
    let mut probes = Vec::new();
    loop {
        match router.select_providers("codex", &replies) {
            SelectionStep::ProbeBreaker { circuit_key } => {
                replies.available.push(!open.contains(&circuit_key.as_str()));
                probes.push(circuit_key);
            }
            SelectionStep::Done(result) => {
                return (probes, result.map(|list| list.into_iter().map(|p| p.id).collect()));
            }
            _ => panic!("all reads have been made"),
        }
    }
}

#[test]
fn reads_are_asked_for_in_order() {
    let router = new_router();
    let mut replies = SelectionReplies::new();
    assert!(matches!(router.select_providers("codex", &replies), SelectionStep::ReadProxyConfig));
    replies.auto_failover_enabled = Some(Ok(true));
    assert!(matches!(router.select_providers("codex", &replies), SelectionStep::ReadAllProviders));
    replies.all_providers = Some(Ok(StringMap::new()));
    assert!(matches!(router.select_providers("codex", &replies), SelectionStep::ReadFailoverQueue));
    replies.failover_queue = Some(Ok(Vec::new()));
    assert!(matches!(
        router.select_providers("codex", &replies),
        SelectionStep::Done(Err(ProxyError::NoProvidersConfigured))
    ));
}

#[test]
fn failover_keeps_the_order_of_the_queue() {
    let (probes, result) = run(failover(&["a", "b", "c"], &["c", "x", "a", "b"]), &["codex:a"]);
    assert_eq!(probes, vec!["codex:c", "codex:a", "codex:b"]);
    assert_eq!(result.ok(), Some(vec!["c".to_string(), "b".to_string()]));
}

#[test]
fn failover_with_every_circuit_open() {
    let (_, result) = run(failover(&["a", "b"], &["a", "b"]), &["codex:a", "codex:b"]);
    assert!(matches!(result, Err(ProxyError::AllProvidersCircuitOpen)));
}

#[test]
fn failover_with_an_unknown_place_and_open_circuits() {
    let (_, result) = run(failover(&["a"], &["a", "gone"]), &["codex:a"]);
    assert!(matches!(result, Err(ProxyError::NoProvidersConfigured)));
    let (probes, result) = run(failover(&["a"], &[]), &[]);
    assert!(probes.is_empty());
    assert!(matches!(result, Err(ProxyError::NoProvidersConfigured)));
}

#[test]
fn failed_reads_end_the_selection() {
    let router = new_router();
    let mut replies = failover(&["a"], &["a"]);
    replies.failover_queue = Some(Err("queue".to_string()));
    assert!(matches!(
        router.select_providers("codex", &replies),
        SelectionStep::Done(Err(ProxyError::DatabaseError(m))) if m == "queue"
    ));
    replies.all_providers = Some(Err("providers".to_string()));
    assert!(matches!(
        router.select_providers("codex", &replies),
        SelectionStep::Done(Err(ProxyError::DatabaseError(m))) if m == "providers"
    ));
}

#[test]
fn without_failover_the_current_provider_is_selected() {
    for config in [Ok(false), Err("unreadable".to_string())] {
        let router = new_router();
        let mut replies = SelectionReplies::new();
        replies.auto_failover_enabled = Some(config);
        assert!(matches!(
            router.select_providers("codex", &replies),
            SelectionStep::ReadCurrentProvider
        ));
        replies.current_provider = Some(Ok(Some(provider("a"))));
        assert!(matches!(
            router.select_providers("codex", &replies),
            SelectionStep::Done(Ok(list)) if list.len() == 1 && list[0].id == "a"
        ));
        replies.current_provider = Some(Ok(None));
        assert!(matches!(
            router.select_providers("codex", &replies),
            SelectionStep::Done(Err(ProxyError::NoProvidersConfigured))
        ));
        replies.current_provider = Some(Err(ProxyError::DatabaseError("x".to_string())));
        assert!(matches!(
            router.select_providers("codex", &replies),
            SelectionStep::Done(Err(ProxyError::DatabaseError(m))) if m == "x"
        ));
    }
}

#[test]
fn keys_name_the_application_and_the_provider() {
    assert_eq!(circuit_key("codex", "p:1"), "codex:p:1");
    assert_eq!(app_type_of_key("codex:p:1"), "codex");
    assert_eq!(app_type_of_key("codex"), "codex");
    assert_eq!(app_type_of_key(":p"), "");
    assert_eq!(app_type_of_key(""), "");
}

#[test]
fn a_circuit_breaker_is_made_once() {
    let mut router = new_router();
    assert!(matches!(
        router.find_circuit_breaker("codex:a"),
        BreakerLookup::Configure { app_type } if app_type == "codex"
    ));
    assert_eq!(*router.get_or_create_circuit_breaker("codex:a", 1), 1);
    assert_eq!(*router.get_or_create_circuit_breaker("codex:a", 2), 1);
    assert_eq!(*router.get_or_create_circuit_breaker("codex:b", 3), 3);
    assert!(matches!(router.find_circuit_breaker("codex:a"), BreakerLookup::Found(1)));
    assert_eq!(router.reset_circuit_breaker("codex:b"), Some(&3));
    assert_eq!(router.reset_circuit_breaker("codex:c"), None);
    assert_eq!(router.reset_provider_breaker("a", "codex"), Some(&1));
    assert_eq!(router.reset_provider_breaker("a", "opencode"), None);
    assert_eq!(router.get_circuit_breaker_stats("b", "codex"), Some(&3));
    assert_eq!(router.get_circuit_breaker_stats("c", "codex"), None);
}

#[test]
fn limits_come_from_the_application_or_the_default() {
    assert_eq!(breaker_config(None, limits()), limits());
    assert_eq!(
        breaker_config(Some(app_config()), limits()),
        CircuitBreakerConfig {
            failure_threshold: 7,
            success_threshold: 8,
            timeout_seconds: 9,
            error_rate_threshold_bits: 0.25f64.to_bits(),
            min_requests: 10,
        }
    );
}

#[test]
fn new_limits_reach_every_circuit_breaker() {
    let mut router = new_router();
    assert!(router.update_all_configs(limits()).is_empty());
    let _ = router.get_or_create_circuit_breaker("codex:a", 1);
    let _ = router.get_or_create_circuit_breaker("codex:b", 2);
    let mut reached: Vec<u32> = router
        .update_all_configs(limits())
        .into_iter()
        .map(|(breaker, config)| {
            assert_eq!(config, limits());
            *breaker
        })
        .collect();
    reached.sort();
    assert_eq!(reached, vec![1, 2]);
}

#[test]
fn requests_ask_the_circuit_breaker() {
    let task = new_router().allow_provider_request("a", "codex");
    assert_eq!(task.circuit_key, "codex:a");
    assert_eq!(task.call, BreakerCall::AllowRequest);
}

#[test]
fn outcomes_are_recorded() {
    let router = new_router();
    let plan = router.record_result("a", "codex", true, true, None, Some(app_config()));
    assert_eq!(plan.task.circuit_key, "codex:a");
    assert_eq!(plan.task.call, BreakerCall::RecordSuccess { used_half_open_permit: true });
    assert_eq!(plan.health.provider_id, "a");
    assert_eq!(plan.health.app_type, "codex");
    assert!(plan.health.success);
    assert_eq!(plan.health.error_msg, None);
    assert_eq!(plan.health.failure_threshold, 7);
    let plan = router.record_result("a", "codex", false, false, Some("timeout".to_string()), None);
    assert_eq!(plan.task.call, BreakerCall::RecordFailure { used_half_open_permit: false });
    assert!(!plan.health.success);
    assert_eq!(plan.health.error_msg.as_deref(), Some("timeout"));
    assert_eq!(plan.health.failure_threshold, 5);
    assert!(health_recorded(Ok(())).is_ok());
    assert!(matches!(
        health_recorded(Err("locked".to_string())),
        Err(ProxyError::DatabaseError(m)) if m == "locked"
    ));
}

#[test]
fn permits_are_released_only_if_used() {
    let router = new_router();
    assert!(router.release_permit_neutral("a", "codex", false).is_none());
    let task = router.release_permit_neutral("a", "codex", true).expect("a call");
    assert_eq!(task.circuit_key, "codex:a");
    assert_eq!(task.call, BreakerCall::ReleaseHalfOpenPermit);
}

#[test]
fn maps_keep_one_value_for_each_key() {
    let mut map: StringMap<u32> = StringMap::new();
    map.insert("a".to_string(), 1);
    map.insert("b".to_string(), 2);
    map.insert("a".to_string(), 3);
    assert_eq!(map.get("a"), Some(&3));
    assert_eq!(map.get("b"), Some(&2));
    assert_eq!(map.entries().len(), 2);
    map.remove("a");
    map.remove("c");
    assert_eq!(map.get("a"), None);
    assert_eq!(map.get("b"), Some(&2));
}

#[test]
fn keys_of_different_providers_differ() {
    assert_ne!(circuit_key("codex", "a"), circuit_key("opencode", "a"));
    assert_ne!(circuit_key("codex", "a"), circuit_key("codex", "b"));
    assert_eq!(app_type_of_key(&circuit_key("codex", "a:b")), "codex");
}

#[test]
fn numbers_in_the_settings_survive_the_cache() {
    let settings: serde_json::Value =
        serde_json::from_str("{\"a\": 18446744073709551615, \"b\": 2.5}").expect("valid JSON");
    let mut stored = provider("a");
    stored.settings_config = settings.clone();
    let mut router = new_router();
    let current = router.store_current_provider("codex", 0, Ok(Some(stored)));
    assert!(matches!(current, Ok(Some(p)) if p.settings_config == settings));
    match router.get_cached_current_provider("codex") {
        CacheLookup::Hit(cached) => assert_eq!(cached.settings_config, settings),
        CacheLookup::Load { .. } => panic!("the provider is cached"),
    }
}

#[test]
fn only_asking_makes_a_circuit_breaker() {
    let mut router = new_router();
    let _ = router.reset_circuit_breaker("codex:a");
    let _ = router.reset_provider_breaker("a", "codex");
    let _ = router.update_all_configs(limits());
    let _ = router.release_permit_neutral("a", "codex", false);
    let _ = router.handle_watch_event(&modify());
    assert_eq!(router.get_circuit_breaker_stats("a", "codex"), None);
    let task = router.allow_provider_request("a", "codex");
    let _ = router.get_or_create_circuit_breaker(&task.circuit_key, 1);
    let plan = router.record_result("a", "codex", false, true, None, None);
    let _ = router.get_or_create_circuit_breaker(&plan.task.circuit_key, 2);
    let task = router.allow_provider_request("b", "codex");
    let _ = router.get_or_create_circuit_breaker(&task.circuit_key, 3);
    let _ = router.handle_watch_event(&modify());
    assert_eq!(router.get_circuit_breaker_stats("a", "codex"), Some(&1));
    assert_eq!(router.get_circuit_breaker_stats("b", "codex"), Some(&3));
    assert_eq!(router.get_circuit_breaker_stats("a", "opencode"), None);
}
