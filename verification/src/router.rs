//! The state of the router: the cache of current providers and the circuit breakers.

use vstd::prelude::*;

use crate::circuit::{
    app_type_of_key, circuit_key, circuit_key_of, AppProxyConfig, CircuitBreakerConfig,
};
use crate::provider::{Provider, ProxyError};
use crate::selection::{next_step, selection_step, SelectionReplies, SelectionStep};
use crate::string_map::{distinct_keys, entry_map, has_key, lemma_entry, StringMap};
use crate::text::before_first;
use crate::watch::{announces_change, is_provider_change, signal_kind};

verus! {

/// A provider and the version of the cache for which it was loaded.
pub struct CachedProvider {
    pub provider: Provider,
    pub version: u64,
}

/// The model of [`ProviderRouter`].
#[verifier::ext_equal]
pub struct RouterModel<B> {
    /// The circuit breakers by their keys.
    pub breakers: Map<Seq<char>, B>,
    /// The cached current providers by application.
    pub cache: Map<Seq<char>, CachedProvider>,
    /// The number of change signals so far.
    pub version: u64,
}

/// Keeps the current provider of each application and the circuit breaker of each provider. What
/// a circuit breaker does is left to `B`.
pub struct ProviderRouter<B> {
    circuit_breakers: StringMap<B>,
    current_cache: StringMap<CachedProvider>,
    cache_version: u64,
}

/// What the cache says of the current provider of an application.
pub enum CacheLookup {
    /// The cached provider is up to date.
    Hit(Provider),
    /// The provider has to be loaded, and what is loaded belongs to this version of the cache.
    Load { version: u64 },
}

/// What is known of the current provider of an application, or why nothing is known.
pub type LoadedProvider = Result<Option<Provider>, ProxyError>;

/// What is to be done next while the current provider is loaded.
pub enum LoadStep {
    /// Read the provider with this identifier.
    ReadProvider { id: String },
    /// The provider is loaded.
    Done(LoadedProvider),
}

/// The circuit breaker under a key, or what is needed to make it.
pub enum BreakerLookup<'a, B> {
    Found(&'a B),
    /// The circuit breaker has to be made by the configuration of this application.
    Configure { app_type: String },
}

/// A call to a circuit breaker.
#[derive(Clone, Copy, Debug, PartialEq, Eq, Structural)]
pub enum BreakerCall {
    AllowRequest,
    RecordSuccess { used_half_open_permit: bool },
    RecordFailure { used_half_open_permit: bool },
    ReleaseHalfOpenPermit,
}

/// A call to the circuit breaker under a key, which is created if need be.
#[derive(Debug)]
pub struct BreakerTask {
    pub circuit_key: String,
    pub call: BreakerCall,
}

/// What is recorded of the health of a provider.
#[derive(Debug)]
pub struct HealthUpdate {
    pub provider_id: String,
    pub app_type: String,
    pub success: bool,
    pub error_msg: Option<String>,
    pub failure_threshold: u32,
}

/// What follows from the outcome of a request, in this order.
#[derive(Debug)]
pub struct RecordPlan {
    pub task: BreakerTask,
    pub health: HealthUpdate,
}

/// The outcome of recording the health of a provider.
pub fn health_recorded(reply: Result<(), String>) -> (outcome: Result<(), ProxyError>)
    ensures
        outcome == (match reply {
            Ok(()) => Ok::<(), ProxyError>(()),
            Err(message) => Err(ProxyError::DatabaseError(message)),
        }),
{
    match reply {
        Ok(()) => Ok(()),
        Err(message) => Err(ProxyError::DatabaseError(message)),
    }
}

impl<B> RouterModel<B> {
    /// The state of a new router.
    pub open spec fn initial() -> RouterModel<B> {
        RouterModel { breakers: Map::empty(), cache: Map::empty(), version: 0 }
    }

    /// No entry of the cache belongs to a version that is still to come.
    pub open spec fn well_formed(self) -> bool {
        forall|app_type: Seq<char>| #[trigger]
            self.cache.contains_key(app_type) ==> self.cache[app_type].version <= self.version
    }

    /// The provider that the cache serves for `app_type`: the cached one, if it was loaded for
    /// the present version.
    pub open spec fn served(self, app_type: Seq<char>) -> Option<Provider> {
        if self.cache.contains_key(app_type) && self.cache[app_type].version == self.version {
            Some(self.cache[app_type].provider)
        } else {
            None
        }
    }

    /// The state after what was `loaded` for `app_type` has been put into the cache: a provider
    /// replaces the entry, a missing provider removes it, a failure leaves it.
    pub open spec fn after_load(
        self,
        app_type: Seq<char>,
        version: u64,
        loaded: LoadedProvider,
    ) -> RouterModel<B> {
        match loaded {
            Ok(Some(provider)) => RouterModel {
                cache: self.cache.insert(app_type, CachedProvider { provider, version }),
                ..self
            },
            Ok(None) => RouterModel { cache: self.cache.remove(app_type), ..self },
            Err(_) => self,
        }
    }

    /// The state after a list of loads has been put into the cache, one after the other.
    pub open spec fn after_loads(
        self,
        version: u64,
        loads: Seq<(String, LoadedProvider)>,
    ) -> RouterModel<B>
        decreases loads.len(),
    {
        if loads.len() == 0 {
            self
        } else {
            self.after_loads(version, loads.drop_last()).after_load(
                loads.last().0@,
                version,
                loads.last().1,
            )
        }
    }

    /// `breaker` is the circuit breaker under `key`, and nothing if there is none.
    pub open spec fn is_breaker_of(self, key: Seq<char>, breaker: Option<&B>) -> bool {
        match breaker {
            Some(breaker) => self.breakers.contains_key(key) && self.breakers[key] == *breaker,
            None => !self.breakers.contains_key(key),
        }
    }

    /// The state in which `fresh` is the circuit breaker under `key`, unless there was one.
    pub open spec fn with_breaker(self, key: Seq<char>, fresh: B) -> RouterModel<B> {
        if self.breakers.contains_key(key) {
            self
        } else {
            RouterModel { breakers: self.breakers.insert(key, fresh), ..self }
        }
    }

    /// `updates` holds each circuit breaker once, always with `config`.
    pub open spec fn covers_each_breaker(
        self,
        updates: Seq<(&B, CircuitBreakerConfig)>,
        config: CircuitBreakerConfig,
    ) -> bool {
        exists|keys: Seq<Seq<char>>|
            {
                &&& #[trigger] keys.no_duplicates()
                &&& keys.to_set() == self.breakers.dom()
                &&& keys.len() == updates.len()
                &&& forall|i: int|
                    0 <= i < updates.len() ==> *(#[trigger] updates[i]).0
                        == self.breakers[keys[i]] && updates[i].1 == config
            }
    }

    /// The state after a change signal.
    pub open spec fn after_signal(self) -> RouterModel<B> {
        RouterModel { version: (self.version + 1) as u64, ..self }
    }
}

/// The step of loading the current provider: its identifier first, then the provider itself.
pub open spec fn load_step(
    current_id: Result<Option<String>, String>,
    provider: Option<Result<Option<Provider>, String>>,
) -> LoadStep {
    match current_id {
        Err(message) => LoadStep::Done(Err(ProxyError::DatabaseError(message))),
        Ok(None) => LoadStep::Done(Ok(None)),
        Ok(Some(id)) => match provider {
            None => LoadStep::ReadProvider { id },
            Some(Ok(found)) => LoadStep::Done(Ok(found)),
            Some(Err(message)) => LoadStep::Done(Err(ProxyError::DatabaseError(message))),
        },
    }
}

/// A list made from all entries of a map holds the value of each key once.
proof fn lemma_covers<B>(
    entries: Seq<(String, B)>,
    updates: Seq<(&B, CircuitBreakerConfig)>,
    config: CircuitBreakerConfig,
)
    requires
        distinct_keys(entries),
        updates.len() == entries.len(),
        forall|j: int| 0 <= j < entries.len() ==> *(#[trigger] updates[j]).0 == entries[j].1,
        forall|j: int| 0 <= j < entries.len() ==> (#[trigger] updates[j]).1 == config,
    ensures
        forall|model: RouterModel<B>|
            model.breakers == entry_map(entries) ==> #[trigger] model.covers_each_breaker(
                updates,
                config,
            ),
{
    let keys = entries.map_values(|entry: (String, B)| entry.0@);
    assert(keys.no_duplicates()) by {
        assert forall|i: int, j: int|
            0 <= i < keys.len() && 0 <= j < keys.len() && i != j implies keys[i] != keys[j] by {
            if i < j {
                assert(entries[i].0@ != entries[j].0@);
            } else {
                assert(entries[j].0@ != entries[i].0@);
            }
        }
    }
    assert forall|key: Seq<char>| keys.to_set().contains(key) == entry_map(
        entries,
    ).contains_key(key) by {
        if keys.contains(key) {
            let i = keys.index_of(key);
            assert(entries[i].0@ == key);
        }
        if has_key(entries, key) {
            let i = choose|i: int| 0 <= i < entries.len() && #[trigger] entries[i].0@ == key;
            assert(keys[i] == key);
        }
    }
    assert(keys.to_set() =~= entry_map(entries).dom());
    assert forall|i: int| 0 <= i < entries.len() implies *(#[trigger] updates[i]).0 == entry_map(
        entries,
    )[keys[i]] by {
        lemma_entry(entries, i);
    }
}

impl<B> View for ProviderRouter<B> {
    type V = RouterModel<B>;

    closed spec fn view(&self) -> RouterModel<B> {
        RouterModel {
            breakers: self.circuit_breakers@,
            cache: self.current_cache@,
            version: self.cache_version,
        }
    }
}

impl<B> ProviderRouter<B> {
    /// A router without circuit breakers and with an empty cache.
    pub fn new() -> (router: ProviderRouter<B>)
        ensures
            router@ == RouterModel::<B>::initial(),
            router@.well_formed(),
    {
        ProviderRouter {
            circuit_breakers: StringMap::new(),
            current_cache: StringMap::new(),
            cache_version: 0,
        }
    }

    /// The number of change signals so far.
    pub fn cache_version(&self) -> (version: u64)
        ensures
            version == self@.version,
    {
        self.cache_version
    }

    /// Takes notice of a file event. If it announces a change of provider, all cached providers
    /// are out of date, and the version is returned for which they are to be loaded again.
    pub fn handle_watch_event(&mut self, kind: &notify::EventKind) -> (refresh: Option<u64>)
        requires
            announces_change(signal_kind(*kind)) ==> old(self)@.version < u64::MAX,
        ensures
            if announces_change(signal_kind(*kind)) {
                final(self)@ == old(self)@.after_signal() && refresh == Some(final(self)@.version)
            } else {
                final(self)@ == old(self)@ && refresh is None
            },
            old(self)@.well_formed() ==> final(self)@.well_formed(),
    {
        if is_provider_change(kind) {
            self.cache_version = self.cache_version + 1;
            Some(self.cache_version)
        } else {
            None
        }
    }

    /// Puts what was loaded for one application into the cache.
    fn apply_load(&mut self, app_type: &str, version: u64, loaded: LoadedProvider)
        ensures
            final(self)@ == old(self)@.after_load(app_type@, version, loaded),
    {
        match loaded {
            Ok(Some(provider)) => {
                self.current_cache.insert(
                    app_type.to_string(),
                    CachedProvider { provider, version },
                );
            },
            Ok(None) => {
                self.current_cache.remove(app_type);
            },
            Err(_) => {},
        }
    }

    /// Puts what was loaded for a list of applications into the cache, one after the other.
    pub fn preload_all(&mut self, version: u64, loads: Vec<(String, LoadedProvider)>)
        ensures
            final(self)@ == old(self)@.after_loads(version, loads@),
            old(self)@.well_formed() && version <= old(self)@.version
                ==> final(self)@.well_formed(),
    {
        let ghost all = loads@;
        proof {
            assert(all.take(0) =~= Seq::empty());
        }
        for load in iter: loads.into_iter()
            invariant
                iter.seq() == all,
                self@ == old(self)@.after_loads(version, all.take(iter.index())),
                self@.version == old(self)@.version,
                old(self)@.well_formed() && version <= old(self)@.version ==> self@.well_formed(),
        {
            let ghost upto = all.take(iter.index() + 1);
            self.apply_load(load.0.as_str(), version, load.1);
            proof {
                assert(upto.drop_last() =~= all.take(iter.index()));
                assert(upto.last() == load);
            }
        }
        proof {
            assert(all.take(all.len() as int) =~= all);
        }
    }

    /// What the cache says of the current provider of `app_type`.
    pub fn get_cached_current_provider(&self, app_type: &str) -> (lookup: CacheLookup)
        ensures
            match lookup {
                CacheLookup::Hit(provider) => self@.served(app_type@) == Some(provider),
                CacheLookup::Load { version } => self@.served(app_type@) is None && version
                    == self@.version,
            },
    {
        if let Some(cached) = self.current_cache.get(app_type) {
            if cached.version == self.cache_version {
                return CacheLookup::Hit(cached.provider.clone());
            }
        }
        CacheLookup::Load { version: self.cache_version }
    }

    /// Puts the current provider of `app_type`, as it was loaded for `version`, into the cache,
    /// and hands it on.
    pub fn store_current_provider(
        &mut self,
        app_type: &str,
        version: u64,
        loaded: LoadedProvider,
    ) -> (current: LoadedProvider)
        ensures
            final(self)@ == old(self)@.after_load(app_type@, version, loaded),
            current == loaded,
            old(self)@.well_formed() && version <= old(self)@.version
                ==> final(self)@.well_formed(),
    {
        let current = match &loaded {
            Ok(Some(provider)) => Ok(Some(provider.clone())),
            Ok(None) => Ok(None),
            Err(error) => Err(error.clone()),
        };
        self.apply_load(app_type, version, loaded);
        current
    }

    /// What is to be done next to load the current provider: `current_id` is the identifier that
    /// was read, or why it cannot be read, and `provider` what was read for that identifier, once
    /// that has been done.
    pub fn load_current_provider(
        current_id: Result<Option<String>, String>,
        provider: Option<Result<Option<Provider>, String>>,
    ) -> (step: LoadStep)
        ensures
            step == load_step(current_id, provider),
    {
        match current_id {
            Err(message) => LoadStep::Done(Err(ProxyError::DatabaseError(message))),
            Ok(None) => LoadStep::Done(Ok(None)),
            Ok(Some(id)) => match provider {
                None => LoadStep::ReadProvider { id },
                Some(Ok(found)) => LoadStep::Done(Ok(found)),
                Some(Err(message)) => LoadStep::Done(Err(ProxyError::DatabaseError(message))),
            },
        }
    }

    /// What is to be done next to select the providers for a request of `app_type`, given what
    /// has been learned so far.
    pub fn select_providers(&self, app_type: &str, replies: &SelectionReplies) -> (step:
        SelectionStep)
        ensures
            step@ == selection_step(app_type@, *replies),
    {
        next_step(app_type, replies)
    }

    /// The circuit breaker under `key`, or the application by whose configuration it has to be
    /// made.
    pub fn find_circuit_breaker(&self, key: &str) -> (lookup: BreakerLookup<'_, B>)
        ensures
            match lookup {
                BreakerLookup::Found(breaker) => self@.breakers.contains_key(key@)
                    && self@.breakers[key@] == *breaker,
                BreakerLookup::Configure { app_type } => !self@.breakers.contains_key(key@)
                    && app_type@ == before_first(key@, ':'),
            },
    {
        match self.circuit_breakers.get(key) {
            Some(breaker) => BreakerLookup::Found(breaker),
            None => BreakerLookup::Configure { app_type: app_type_of_key(key).to_string() },
        }
    }

    /// The circuit breaker under `key`. If there is none yet, `fresh` becomes it.
    pub fn get_or_create_circuit_breaker(&mut self, key: &str, fresh: B) -> (breaker: &B)
        ensures
            final(self)@ == old(self)@.with_breaker(key@, fresh),
            *breaker == final(self)@.breakers[key@],
    {
        if self.circuit_breakers.get(key).is_none() {
            self.circuit_breakers.insert(key.to_string(), fresh);
        }
        self.circuit_breakers.get(key).unwrap()
    }

    /// The call by which a request to a provider asks to be let through.
    pub fn allow_provider_request(&self, provider_id: &str, app_type: &str) -> (task: BreakerTask)
        ensures
            task.circuit_key@ == circuit_key_of(app_type@, provider_id@),
            task.call == BreakerCall::AllowRequest,
    {
        BreakerTask {
            circuit_key: circuit_key(app_type, provider_id),
            call: BreakerCall::AllowRequest,
        }
    }

    /// What follows from the outcome of a request: a call to the circuit breaker of the provider,
    /// and a record of its health. `app_config` is the proxy configuration of the application,
    /// where it can be read.
    pub fn record_result(
        &self,
        provider_id: &str,
        app_type: &str,
        used_half_open_permit: bool,
        success: bool,
        error_msg: Option<String>,
        app_config: Option<AppProxyConfig>,
    ) -> (plan: RecordPlan)
        ensures
            plan.task.circuit_key@ == circuit_key_of(app_type@, provider_id@),
            plan.task.call == (if success {
                BreakerCall::RecordSuccess { used_half_open_permit }
            } else {
                BreakerCall::RecordFailure { used_half_open_permit }
            }),
            plan.health.provider_id@ == provider_id@,
            plan.health.app_type@ == app_type@,
            plan.health.success == success,
            plan.health.error_msg == error_msg,
            plan.health.failure_threshold == (match app_config {
                Some(config) => config.circuit_failure_threshold,
                None => 5,
            }),
    {
        let failure_threshold: u32 = match app_config {
            Some(config) => config.circuit_failure_threshold,
            None => 5,
        };
        let call = if success {
            BreakerCall::RecordSuccess { used_half_open_permit }
        } else {
            BreakerCall::RecordFailure { used_half_open_permit }
        };
        RecordPlan {
            task: BreakerTask { circuit_key: circuit_key(app_type, provider_id), call },
            health: HealthUpdate {
                provider_id: provider_id.to_string(),
                app_type: app_type.to_string(),
                success,
                error_msg,
                failure_threshold,
            },
        }
    }

    /// The circuit breaker to reset: the one under `circuit_key`, if there is one.
    pub fn reset_circuit_breaker(&self, circuit_key: &str) -> (breaker: Option<&B>)
        ensures
            self@.is_breaker_of(circuit_key@, breaker),
    {
        self.circuit_breakers.get(circuit_key)
    }

    /// The circuit breaker to reset: the one of the provider, if there is one.
    pub fn reset_provider_breaker(&self, provider_id: &str, app_type: &str) -> (breaker: Option<&B>)
        ensures
            self@.is_breaker_of(circuit_key_of(app_type@, provider_id@), breaker),
    {
        self.reset_circuit_breaker(circuit_key(app_type, provider_id).as_str())
    }

    /// The call by which a permit that was used is given back without a verdict; none where no
    /// permit was used.
    pub fn release_permit_neutral(
        &self,
        provider_id: &str,
        app_type: &str,
        used_half_open_permit: bool,
    ) -> (task: Option<BreakerTask>)
        ensures
            task is Some <==> used_half_open_permit,
            task matches Some(task) ==> task.circuit_key@ == circuit_key_of(app_type@, provider_id@)
                && task.call == BreakerCall::ReleaseHalfOpenPermit,
    {
        if !used_half_open_permit {
            return None;
        }
        Some(
            BreakerTask {
                circuit_key: circuit_key(app_type, provider_id),
                call: BreakerCall::ReleaseHalfOpenPermit,
            },
        )
    }

    /// The circuit breakers that take over new limits, each with the limits: all of them.
    pub fn update_all_configs(&self, config: CircuitBreakerConfig) -> (updates: Vec<
        (&B, CircuitBreakerConfig),
    >)
        ensures
            self@.covers_each_breaker(updates@, config),
    {
        let entries = self.circuit_breakers.entries();
        let mut updates: Vec<(&B, CircuitBreakerConfig)> = Vec::new();
        let mut i: usize = 0;
        while i < entries.len()
            invariant
                i <= entries@.len(),
                updates@.len() == i,
                forall|j: int| 0 <= j < i ==> *(#[trigger] updates@[j]).0 == entries@[j].1,
                forall|j: int| 0 <= j < i ==> (#[trigger] updates@[j]).1 == config,
            decreases entries@.len() - i,
        {
            updates.push((&entries[i].1, config));
            i += 1;
        }
        proof {
            lemma_covers(entries@, updates@, config);
        }
        updates
    }

    /// The circuit breaker whose statistics are asked for: the one of the provider, if there is
    /// one.
    pub fn get_circuit_breaker_stats(&self, provider_id: &str, app_type: &str) -> (breaker: Option<
        &B,
    >)
        ensures
            self@.is_breaker_of(circuit_key_of(app_type@, provider_id@), breaker),
    {
        let circuit_key = circuit_key(app_type, provider_id);
        self.circuit_breakers.get(circuit_key.as_str())
    }
}

} // verus!
