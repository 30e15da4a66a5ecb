//! What holds of the library as a whole.

use vstd::prelude::*;

use crate::circuit::{circuit_key_of, CircuitBreakerConfig};
use crate::claude::{
    auth_headers, auth_key, bearer_header, error_detail, strategy_of, translated_error,
    ProviderType,
};
use crate::json::JsonTree;
use crate::provider::{AuthStrategy, Provider, ProviderModel, ProxyError};
use crate::router::{LoadedProvider, RouterModel};
use crate::selection::{
    available_ones, candidates, failover_selection, failover_step, selection_step, SelectionReplies,
    StepModel,
};
use crate::text::trim_end_of;
use crate::watch::{announces_change, SignalKind};

verus! {

/// After a change signal the cache serves no provider until it has been loaded again.
pub proof fn law_signal_outdates_cache<B>(router: RouterModel<B>, app_type: Seq<char>)
    requires
        router.well_formed(),
        router.version < u64::MAX,
    ensures
        router.after_signal().served(app_type) is None,
        router.after_signal().well_formed(),
{
}

/// A provider that was loaded for the present version is served, whatever was cached before; one
/// that was loaded for another version is not.
pub proof fn law_loaded_provider_is_served<B>(
    router: RouterModel<B>,
    app_type: Seq<char>,
    version: u64,
    provider: Provider,
)
    ensures
        router.after_load(app_type, version, Ok(Some(provider))).served(app_type) == (if version
            == router.version {
            Some(provider)
        } else {
            None
        }),
{
}

/// Once a load has found no provider, none is served; a load that failed changes nothing.
pub proof fn law_missing_provider_is_not_served<B>(
    router: RouterModel<B>,
    app_type: Seq<char>,
    version: u64,
    error: ProxyError,
)
    ensures
        router.after_load(app_type, version, Ok(None)).served(app_type) is None,
        router.after_load(app_type, version, Err(error)) == router,
{
}

/// What is loaded for one application does not touch another, nor the circuit breakers.
pub proof fn law_load_touches_one_application<B>(
    router: RouterModel<B>,
    app_type: Seq<char>,
    version: u64,
    loaded: LoadedProvider,
    other: Seq<char>,
)
    requires
        other != app_type,
    ensures
        router.after_load(app_type, version, loaded).served(other) == router.served(other),
        router.after_load(app_type, version, loaded).breakers == router.breakers,
{
}

/// No two loads are for the same application.
pub open spec fn distinct_applications(loads: Seq<(String, LoadedProvider)>) -> bool {
    forall|i: int, j: int|
        0 <= i < j < loads.len() ==> #[trigger] loads[i].0@ != #[trigger] loads[j].0@
}

/// The provider that a load found.
pub open spec fn found(loaded: LoadedProvider) -> Option<Provider> {
    match loaded {
        Ok(Some(provider)) => Some(provider),
        _ => None,
    }
}

/// Loads for a state that serves nothing, up to the last one.
proof fn lemma_loads_are_served<B>(
    router: RouterModel<B>,
    loads: Seq<(String, LoadedProvider)>,
    app_type: Seq<char>,
)
    requires
        distinct_applications(loads),
        forall|other: Seq<char>| (#[trigger] router.served(other)) is None,
    ensures
        router.after_loads(router.version, loads).version == router.version,
        forall|i: int|
            0 <= i < loads.len() && (#[trigger] loads[i]).0@ == app_type ==> router.after_loads(
                router.version,
                loads,
            ).served(app_type) == found(loads[i].1),
        (forall|i: int| 0 <= i < loads.len() ==> (#[trigger] loads[i]).0@ != app_type)
            ==> router.after_loads(router.version, loads).served(app_type) is None,
    decreases loads.len(),
{
    if loads.len() > 0 {
        let earlier = loads.drop_last();
        let last = loads.len() - 1;
        assert forall|i: int, j: int| 0 <= i < j < earlier.len() implies #[trigger] earlier[i].0@
            != #[trigger] earlier[j].0@ by {
            assert(loads[i].0@ != loads[j].0@);
        }
        lemma_loads_are_served(router, earlier, app_type);
        let before = router.after_loads(router.version, earlier);
        if loads[last].0@ == app_type {
            assert forall|i: int| 0 <= i < earlier.len() implies (#[trigger] earlier[i]).0@
                != app_type by {
                assert(loads[i].0@ != loads[last].0@);
            }
            assert(before.served(app_type) is None);
        } else {
            law_load_touches_one_application(
                before,
                loads[last].0@,
                router.version,
                loads[last].1,
                app_type,
            );
            assert forall|i: int| 0 <= i < loads.len() && (#[trigger] loads[i]).0@
                == app_type implies router.after_loads(router.version, loads).served(app_type)
                == found(loads[i].1) by {
                assert(earlier[i].0@ == app_type);
            }
            if forall|i: int| 0 <= i < loads.len() ==> (#[trigger] loads[i]).0@ != app_type {
                assert forall|i: int| 0 <= i < earlier.len() implies (#[trigger] earlier[i]).0@
                    != app_type by {
                    assert(loads[i].0@ != app_type);
                }
            }
        }
    }
}

/// A change signal followed by the loads for it leaves the cache with what those loads found:
/// each application is served the provider that was found for it now, and an application for
/// which no provider was found, or which was not loaded, is served none.
pub proof fn law_refresh_serves_what_was_found<B>(
    router: RouterModel<B>,
    loads: Seq<(String, LoadedProvider)>,
    app_type: Seq<char>,
)
    requires
        router.well_formed(),
        router.version < u64::MAX,
        distinct_applications(loads),
    ensures
        ({
            let signalled = router.after_signal();
            let refreshed = signalled.after_loads(signalled.version, loads);
            &&& forall|i: int|
                0 <= i < loads.len() && (#[trigger] loads[i]).0@ == app_type
                    ==> refreshed.served(app_type) == found(loads[i].1)
            &&& (forall|i: int| 0 <= i < loads.len() ==> (#[trigger] loads[i]).0@ != app_type)
                ==> refreshed.served(app_type) is None
        }),
{
    let signalled = router.after_signal();
    assert forall|other: Seq<char>| (#[trigger] signalled.served(other)) is None by {
        law_signal_outdates_cache(router, other);
    }
    lemma_loads_are_served(signalled, loads, app_type);
}

/// A circuit breaker stays the one it is: making one where there is one changes nothing, and
/// making one leaves the others and the cache alone.
pub proof fn law_breaker_is_kept<B>(router: RouterModel<B>, key: Seq<char>, fresh: B, again: B)
    ensures
        router.with_breaker(key, fresh).with_breaker(key, again) == router.with_breaker(key, fresh),
        router.breakers.contains_key(key) ==> router.with_breaker(key, fresh) == router,
        forall|other: Seq<char>|
            router.breakers.contains_key(other) ==> (#[trigger] router.with_breaker(
                key,
                fresh,
            ).breakers[other]) == router.breakers[other],
        router.with_breaker(key, fresh).cache == router.cache,
{
}

/// No two keys lead to the same circuit breaker.
pub open spec fn breakers_are_apart<B>(router: RouterModel<B>) -> bool {
    forall|one: Seq<char>, other: Seq<char>|
        #![trigger router.breakers[one], router.breakers[other]]
        router.breakers.contains_key(one) && router.breakers.contains_key(other)
            && router.breakers[one] == router.breakers[other] ==> one == other
}

/// `fresh` is not yet the circuit breaker of any key.
pub open spec fn is_unused<B>(router: RouterModel<B>, fresh: B) -> bool {
    forall|key: Seq<char>|
        router.breakers.contains_key(key) ==> #[trigger] router.breakers[key] != fresh
}

/// Two calls for a circuit breaker give the same one exactly if they are for the same key, and the
/// second call does not replace what the first one gave. Each call brings along a new circuit
/// breaker where there is none under its key.
pub proof fn law_each_key_has_its_own_breaker<B>(
    router: RouterModel<B>,
    one: Seq<char>,
    fresh_one: B,
    other: Seq<char>,
    fresh_other: B,
)
    requires
        breakers_are_apart(router),
        !router.breakers.contains_key(one) ==> is_unused(router, fresh_one),
        !router.with_breaker(one, fresh_one).breakers.contains_key(other) ==> is_unused(
            router.with_breaker(one, fresh_one),
            fresh_other,
        ),
    ensures
        ({
            let first = router.with_breaker(one, fresh_one);
            let second = first.with_breaker(other, fresh_other);
            &&& first.breakers[one] == second.breakers[other] <==> one == other
            &&& second.breakers[one] == first.breakers[one]
            &&& breakers_are_apart(first)
            &&& breakers_are_apart(second)
        }),
{
    let first = router.with_breaker(one, fresh_one);
    let second = first.with_breaker(other, fresh_other);
    assert(first.breakers.contains_key(one));
    assert(second.breakers.contains_key(one));
    assert(second.breakers.contains_key(other));
}

/// A call of a method of the router. A call that asks for a circuit breaker brings along the one
/// that is made if there is none yet.
pub enum RouterCall<B> {
    SelectProviders { app_type: Seq<char>, replies: SelectionReplies, fresh: B },
    AllowProviderRequest { provider_id: Seq<char>, app_type: Seq<char>, fresh: B },
    RecordResult { provider_id: Seq<char>, app_type: Seq<char>, fresh: B },
    ReleasePermitNeutral {
        provider_id: Seq<char>,
        app_type: Seq<char>,
        used_half_open_permit: bool,
        fresh: B,
    },
    ResetCircuitBreaker { circuit_key: Seq<char> },
    ResetProviderBreaker { provider_id: Seq<char>, app_type: Seq<char> },
    UpdateAllConfigs { config: CircuitBreakerConfig },
    GetCircuitBreakerStats { provider_id: Seq<char>, app_type: Seq<char> },
    HandleWatchEvent { kind: SignalKind },
    PreloadAll { version: u64, loads: Seq<(String, LoadedProvider)> },
    GetCachedCurrentProvider { app_type: Seq<char> },
    StoreCurrentProvider { app_type: Seq<char>, version: u64, loaded: LoadedProvider },
}

impl<B> RouterCall<B> {
    /// The key of the circuit breaker that the call asks for, and the one it brings along: a
    /// selection asks for the one that its step probes, a request and its outcome for that of the
    /// provider, and a release only where a permit was used.
    pub open spec fn asks_for(self) -> Option<(Seq<char>, B)> {
        match self {
            RouterCall::SelectProviders { app_type, replies, fresh } => match selection_step(
                app_type,
                replies,
            ) {
                StepModel::ProbeBreaker(key) => Some((key, fresh)),
                _ => None,
            },
            RouterCall::AllowProviderRequest { provider_id, app_type, fresh } => Some(
                (circuit_key_of(app_type, provider_id), fresh),
            ),
            RouterCall::RecordResult { provider_id, app_type, fresh } => Some(
                (circuit_key_of(app_type, provider_id), fresh),
            ),
            RouterCall::ReleasePermitNeutral {
                provider_id,
                app_type,
                used_half_open_permit,
                fresh,
            } => if used_half_open_permit {
                Some((circuit_key_of(app_type, provider_id), fresh))
            } else {
                None
            },
            _ => None,
        }
    }

    /// The call asks for the circuit breaker under `key`.
    pub open spec fn asks_for_key(self, key: Seq<char>) -> bool {
        self.asks_for() matches Some(asked) && asked.0 == key
    }

    /// The state after the call.
    pub open spec fn after(self, router: RouterModel<B>) -> RouterModel<B> {
        match self {
            RouterCall::HandleWatchEvent { kind } => if announces_change(kind) {
                router.after_signal()
            } else {
                router
            },
            RouterCall::PreloadAll { version, loads } => router.after_loads(version, loads),
            RouterCall::StoreCurrentProvider { app_type, version, loaded } => router.after_load(
                app_type,
                version,
                loaded,
            ),
            _ => match self.asks_for() {
                Some(asked) => router.with_breaker(asked.0, asked.1),
                None => router,
            },
        }
    }
}

/// The state of a router that has been made new and then called in this order.
pub open spec fn after_calls<B>(calls: Seq<RouterCall<B>>) -> RouterModel<B>
    decreases calls.len(),
{
    if calls.len() == 0 {
        RouterModel::initial()
    } else {
        calls.last().after(after_calls(calls.drop_last()))
    }
}

/// Some of the calls asks for the circuit breaker under `key`.
pub open spec fn was_asked_for<B>(calls: Seq<RouterCall<B>>, key: Seq<char>) -> bool {
    exists|i: int| 0 <= i < calls.len() && #[trigger] calls[i].asks_for_key(key)
}

/// The call at `at` is the first that asks for the circuit breaker under `key`.
pub open spec fn first_asked<B>(calls: Seq<RouterCall<B>>, key: Seq<char>, at: int) -> bool {
    &&& 0 <= at < calls.len()
    &&& calls[at].asks_for_key(key)
    &&& forall|i: int| 0 <= i < at ==> !#[trigger] calls[i].asks_for_key(key)
}

/// Loads leave the circuit breakers alone.
proof fn lemma_loads_keep_breakers<B>(
    router: RouterModel<B>,
    version: u64,
    loads: Seq<(String, LoadedProvider)>,
)
    ensures
        router.after_loads(version, loads).breakers == router.breakers,
    decreases loads.len(),
{
    if loads.len() > 0 {
        lemma_loads_keep_breakers(router, version, loads.drop_last());
    }
}

/// One call changes the circuit breakers only by the one that it asks for.
proof fn lemma_call_breakers<B>(router: RouterModel<B>, call: RouterCall<B>)
    ensures
        call.after(router).breakers == (match call.asks_for() {
            Some(asked) => router.with_breaker(asked.0, asked.1).breakers,
            None => router.breakers,
        }),
{
    if let RouterCall::PreloadAll { version, loads } = call {
        lemma_loads_keep_breakers(router, version, loads);
    }
}

/// Whatever calls have been made of a router, a circuit breaker exists exactly if one of them
/// asked for it, and it is the one that the first such call brought along: resetting, new limits,
/// statistics, change signals and loads neither make nor remove nor replace one.
pub proof fn law_breaker_exists_if_asked_for<B>(calls: Seq<RouterCall<B>>, key: Seq<char>)
    ensures
        after_calls(calls).breakers.contains_key(key) <==> was_asked_for(calls, key),
        forall|at: int| #[trigger]
            first_asked(calls, key, at) ==> after_calls(calls).breakers[key]
                == (calls[at].asks_for()->0).1,
    decreases calls.len(),
{
    if calls.len() > 0 {
        let earlier = calls.drop_last();
        let last = calls.len() - 1;
        law_breaker_exists_if_asked_for(earlier, key);
        lemma_call_breakers(after_calls(earlier), calls.last());
        assert(calls[last].asks_for_key(key) ==> was_asked_for(calls, key));
        if was_asked_for(earlier, key) {
            let i = choose|i: int| 0 <= i < earlier.len() && #[trigger] earlier[i].asks_for_key(key);
            assert(calls[i].asks_for_key(key));
        }
        if was_asked_for(calls, key) && !calls[last].asks_for_key(key) {
            let i = choose|i: int| 0 <= i < calls.len() && #[trigger] calls[i].asks_for_key(key);
            assert(earlier[i].asks_for_key(key));
        }
        assert forall|at: int| #[trigger] first_asked(calls, key, at) implies after_calls(
            calls,
        ).breakers[key] == (calls[at].asks_for()->0).1 by {
            if at < last {
                assert forall|i: int| 0 <= i < at implies !#[trigger] earlier[i].asks_for_key(
                    key,
                ) by {
                    assert(!calls[i].asks_for_key(key));
                }
                assert(earlier[at].asks_for_key(key));
                assert(first_asked(earlier, key, at));
            } else {
                if was_asked_for(earlier, key) {
                    let i = choose|i: int|
                        0 <= i < earlier.len() && #[trigger] earlier[i].asks_for_key(key);
                    assert(calls[i].asks_for_key(key));
                }
            }
        }
    }
}

/// Whatever calls have been made of a router, there are statistics of a provider exactly if one of
/// them asked for its circuit breaker, and they are those of the circuit breaker that the first
/// such call brought along.
pub proof fn law_statistics_exist_if_asked_for<B>(
    calls: Seq<RouterCall<B>>,
    provider_id: Seq<char>,
    app_type: Seq<char>,
    breaker: Option<&B>,
)
    requires
        after_calls(calls).is_breaker_of(circuit_key_of(app_type, provider_id), breaker),
    ensures
        breaker is Some <==> was_asked_for(calls, circuit_key_of(app_type, provider_id)),
        forall|at: int| #[trigger]
            first_asked(calls, circuit_key_of(app_type, provider_id), at) ==> *breaker->0 == (
            calls[at].asks_for()->0).1,
{
    let key = circuit_key_of(app_type, provider_id);
    law_breaker_exists_if_asked_for(calls, key);
    assert forall|at: int| #[trigger] first_asked(calls, key, at) implies *breaker->0 == (
    calls[at].asks_for()->0).1 by {
        assert(was_asked_for(calls, key));
    }
}

/// Every call that asks for a circuit breaker brings along another one.
pub open spec fn brought_are_apart<B>(calls: Seq<RouterCall<B>>) -> bool {
    forall|i: int, j: int|
        0 <= i < j < calls.len() && (#[trigger] calls[i]).asks_for() is Some && (
        #[trigger] calls[j]).asks_for() is Some ==> (calls[i].asks_for()->0).1
            != (calls[j].asks_for()->0).1
}

/// Where there is a call that asks for `key`, there is a first one.
proof fn lemma_first_asked<B>(calls: Seq<RouterCall<B>>, key: Seq<char>, upto: int) -> (at: int)
    requires
        0 <= upto < calls.len(),
        calls[upto].asks_for_key(key),
    ensures
        first_asked(calls, key, at),
    decreases upto,
{
    if forall|i: int| 0 <= i < upto ==> !#[trigger] calls[i].asks_for_key(key) {
        upto
    } else {
        let i = choose|i: int| 0 <= i < upto && #[trigger] calls[i].asks_for_key(key);
        lemma_first_asked(calls, key, i)
    }
}

/// Whatever calls have been made of a router, different keys have different circuit breakers,
/// where each circuit breaker that was brought along was a new one.
pub proof fn law_breakers_stay_apart<B>(calls: Seq<RouterCall<B>>)
    requires
        brought_are_apart(calls),
    ensures
        breakers_are_apart(after_calls(calls)),
{
    let router = after_calls(calls);
    assert forall|one: Seq<char>, other: Seq<char>|
        #![trigger router.breakers[one], router.breakers[other]]
        router.breakers.contains_key(one) && router.breakers.contains_key(other)
            && router.breakers[one] == router.breakers[other] implies one == other by {
        law_breaker_exists_if_asked_for(calls, one);
        law_breaker_exists_if_asked_for(calls, other);
        let i = choose|i: int| 0 <= i < calls.len() && #[trigger] calls[i].asks_for_key(one);
        let j = choose|j: int| 0 <= j < calls.len() && #[trigger] calls[j].asks_for_key(other);
        let first_one = lemma_first_asked(calls, one, i);
        let first_other = lemma_first_asked(calls, other, j);
        assert(first_asked(calls, one, first_one));
        assert(first_asked(calls, other, first_other));
        assert(calls[first_one].asks_for() is Some);
        assert(calls[first_other].asks_for() is Some);
    }
}

/// The circuit breaker that the call at `at` is given: the one under the key that it asks for, in
/// the state right after it.
pub open spec fn given_to<B>(calls: Seq<RouterCall<B>>, at: int) -> B {
    after_calls(calls.take(at + 1)).breakers[(calls[at].asks_for()->0).0]
}

/// What a call is given stays under its key, whatever calls come after it.
proof fn lemma_given_stays<B>(calls: Seq<RouterCall<B>>, at: int)
    requires
        0 <= at < calls.len(),
        calls[at].asks_for() is Some,
    ensures
        after_calls(calls).breakers.contains_key((calls[at].asks_for()->0).0),
        after_calls(calls).breakers[(calls[at].asks_for()->0).0] == given_to(calls, at),
{
    let key = (calls[at].asks_for()->0).0;
    let upto = calls.take(at + 1);
    assert(upto[at].asks_for_key(key));
    let first = lemma_first_asked(upto, key, at);
    assert(calls[first].asks_for_key(key));
    assert forall|i: int| 0 <= i < first implies !#[trigger] calls[i].asks_for_key(key) by {
        assert(!upto[i].asks_for_key(key));
    }
    assert(first_asked(calls, key, first));
    law_breaker_exists_if_asked_for(upto, key);
    law_breaker_exists_if_asked_for(calls, key);
}

/// Any two calls that ask for a circuit breaker, whatever calls stand before, between and after
/// them, are given the same one exactly if they ask for the same key, and both find it under their
/// key ever after. Each circuit breaker that was brought along was a new one.
pub proof fn law_any_two_calls<B>(calls: Seq<RouterCall<B>>, one: int, other: int)
    requires
        brought_are_apart(calls),
        0 <= one < calls.len(),
        0 <= other < calls.len(),
        calls[one].asks_for() is Some,
        calls[other].asks_for() is Some,
    ensures
        given_to(calls, one) == given_to(calls, other) <==> (calls[one].asks_for()->0).0 == (
        calls[other].asks_for()->0).0,
        after_calls(calls).breakers[(calls[one].asks_for()->0).0] == given_to(calls, one),
        after_calls(calls).breakers[(calls[other].asks_for()->0).0] == given_to(calls, other),
{
    lemma_given_stays(calls, one);
    lemma_given_stays(calls, other);
    law_breakers_stay_apart(calls);
}

/// `places` are the places, from the first to the last, of the candidates whose circuit breaker is
/// available, and the chosen providers are those at these places.
pub open spec fn are_places_of_chosen(
    places: Seq<int>,
    known: Seq<Provider>,
    available: Seq<bool>,
) -> bool {
    let chosen = available_ones(known, available);
    &&& places.len() == chosen.len()
    &&& forall|i: int, j: int|
        0 <= i < j < places.len() ==> #[trigger] places[i] < #[trigger] places[j]
    &&& forall|i: int|
        0 <= i < places.len() ==> 0 <= #[trigger] places[i] < known.len() && available[places[i]]
            && chosen[i] == known[places[i]]
    &&& forall|place: int|
        0 <= place < known.len() && available[place] ==> #[trigger] places.contains(place)
}

/// A selection from the failover queue keeps the order of the queue: the chosen providers are
/// those candidates whose circuit breaker is available, all of them, each at its place.
pub proof fn law_selection_keeps_order(known: Seq<Provider>, available: Seq<bool>)
    requires
        known.len() <= available.len(),
    ensures
        exists|places: Seq<int>| are_places_of_chosen(places, known, available),
    decreases known.len(),
{
    let chosen = available_ones(known, available);
    if known.len() == 0 {
        let places = Seq::<int>::empty();
        assert(are_places_of_chosen(places, known, available));
    } else {
        let earlier = known.drop_last();
        let last = known.len() - 1;
        law_selection_keeps_order(earlier, available);
        let before = choose|places: Seq<int>| are_places_of_chosen(places, earlier, available);
        let places = if available[last] {
            before.push(last)
        } else {
            before
        };
        assert forall|place: int|
            0 <= place < known.len() && available[place] implies #[trigger] places.contains(
            place,
        ) by {
            if place < last {
                assert(before.contains(place));
                let i = before.index_of(place);
                assert(places[i] == place);
            } else {
                assert(places[places.len() - 1] == place);
            }
        }
        assert(are_places_of_chosen(places, known, available));
    }
}

/// A selection from the failover queue is never empty, and fails with the open circuit as the
/// reason exactly if there is a queue, every place in it is held by a provider that exists, and
/// no circuit breaker among theirs is available.
pub proof fn law_selection_errors(
    all: Map<Seq<char>, Provider>,
    queue: Seq<String>,
    available: Seq<bool>,
)
    requires
        candidates(all, queue).len() <= available.len(),
    ensures
        failover_selection(all, queue, available) matches Ok(chosen) ==> chosen.len() > 0,
        failover_selection(all, queue, available) is Ok <==> (exists|i: int|
            0 <= i < candidates(all, queue).len() && #[trigger] available[i]),
        failover_selection(all, queue, available) == Err::<Seq<Provider>, ProxyError>(
            ProxyError::AllProvidersCircuitOpen,
        ) <==> {
            &&& queue.len() > 0
            &&& forall|i: int| 0 <= i < queue.len() ==> all.contains_key(#[trigger] queue[i]@)
            &&& forall|i: int| 0 <= i < queue.len() ==> !#[trigger] available[i]
        },
{
    let known = candidates(all, queue);
    let chosen = available_ones(known, available);
    law_selection_keeps_order(known, available);
    let places = choose|places: Seq<int>| are_places_of_chosen(places, known, available);
    if chosen.len() > 0 {
        assert(available[places[0]]);
    }
    if exists|i: int| 0 <= i < known.len() && #[trigger] available[i] {
        let i = choose|i: int| 0 <= i < known.len() && #[trigger] available[i];
        assert(places.contains(i));
    }
    lemma_all_known(all, queue);
}

/// There are as many candidates as places in the queue exactly if every place is held by a
/// provider that exists.
pub(crate) proof fn lemma_all_known(all: Map<Seq<char>, Provider>, queue: Seq<String>)
    ensures
        candidates(all, queue).len() <= queue.len(),
        candidates(all, queue).len() == queue.len() <==> (forall|i: int|
            0 <= i < queue.len() ==> all.contains_key(#[trigger] queue[i]@)),
    decreases queue.len(),
{
    let known = |id: String| all.contains_key(id@);
    reveal(Seq::filter);
    if queue.len() > 0 {
        let earlier = queue.drop_last();
        lemma_all_known(all, earlier);
        assert(queue.filter(known) == if known(queue.last()) {
            earlier.filter(known).push(queue.last())
        } else {
            earlier.filter(known)
        });
        if forall|i: int| 0 <= i < queue.len() ==> all.contains_key(#[trigger] queue[i]@) {
            assert forall|i: int| 0 <= i < earlier.len() implies all.contains_key(
                #[trigger] earlier[i]@,
            ) by {
                assert(all.contains_key(queue[i]@));
            }
            assert(all.contains_key(queue[queue.len() - 1]@));
        }
        if candidates(all, queue).len() == queue.len() {
            assert forall|i: int| 0 <= i < queue.len() implies all.contains_key(
                #[trigger] queue[i]@,
            ) by {
                if i < earlier.len() {
                    assert(all.contains_key(earlier[i]@));
                }
            }
        }
    }
}

/// A proxy configuration that cannot be read selects as one without automatic failover does.
pub proof fn law_unreadable_config_means_no_failover(
    app_type: Seq<char>,
    replies: SelectionReplies,
    message: String,
)
    requires
        replies.auto_failover_enabled == Some(Err::<bool, String>(message)),
    ensures
        selection_step(app_type, replies) == selection_step(
            app_type,
            SelectionReplies { auto_failover_enabled: Some(Ok(false)), ..replies },
        ),
{
}

/// Every candidate is probed once: as long as there are fewer answers than candidates the next
/// one is probed, and after that the selection is made.
pub proof fn law_probes_come_to_an_end(
    app_type: Seq<char>,
    all: Map<Seq<char>, Provider>,
    queue: Seq<String>,
    available: Seq<bool>,
)
    ensures
        failover_step(app_type, all, queue, available) is ProbeBreaker <==> available.len()
            < candidates(all, queue).len(),
        failover_step(app_type, all, queue, available) is Done <==> candidates(all, queue).len()
            <= available.len(),
        candidates(all, queue).len() <= queue.len(),
{
    lemma_all_known(all, queue);
}

/// A provider that is marked as GitHub Copilot is treated as such, whatever its settings are.
pub proof fn law_marked_copilot(provider: ProviderModel)
    requires
        provider.meta matches Some(meta) && meta.provider_type == Some("github_copilot"@),
    ensures
        provider.kind() == ProviderType::GitHubCopilot,
        strategy_of(provider.kind()) == AuthStrategy::GitHubCopilot,
        auth_key(provider) == Some("copilot_placeholder"@),
        provider.needs_transform(),
{
}

/// The interface format is one of three.
pub proof fn law_three_formats(provider: ProviderModel)
    ensures
        provider.api_format() == "openai_chat"@ || provider.api_format() == "openai_responses"@
            || provider.api_format() == "anthropic"@,
{
}

/// Only the Anthropic format of a provider other than GitHub Copilot passes through unchanged.
pub proof fn law_untransformed_is_anthropic(provider: ProviderModel)
    ensures
        !provider.needs_transform() <==> provider.api_format() == "anthropic"@
            && !provider.is_github_copilot(),
{
    law_three_formats(provider);
    reveal_strlit("anthropic");
    reveal_strlit("openai_chat");
    reveal_strlit("openai_responses");
    assert("anthropic"@[0] == 'a');
    assert("openai_chat"@[0] == 'o');
    assert("openai_responses"@[0] == 'o');
}

/// The format in the meta data decides, whatever the settings say.
pub proof fn law_meta_format_decides(provider: ProviderModel, settings: JsonTree)
    requires
        provider.meta matches Some(meta) && meta.api_format is Some,
    ensures
        (ProviderModel { settings, ..provider }).api_format() == provider.api_format(),
{
}

/// Trimming leaves no such character at the end.
proof fn lemma_trimmed_end(text: Seq<char>, edge: char)
    ensures
        trim_end_of(text, edge).len() > 0 ==> trim_end_of(text, edge).last() != edge,
    decreases text.len(),
{
    if text.len() > 0 && text.last() == edge {
        lemma_trimmed_end(text.drop_last(), edge);
    }
}

/// A base URL never ends in a slash.
pub proof fn law_base_url_ends_without_slash(provider: ProviderModel)
    ensures
        provider.base_url() matches Some(url) ==> url.len() > 0 ==> url.last() != '/',
{
    if let Some(url) = provider.written_base_url() {
        lemma_trimmed_end(url, '/');
    }
}

/// An authentication key is never empty.
pub proof fn law_key_is_not_empty(provider: ProviderModel)
    ensures
        auth_key(provider) matches Some(key) ==> key.len() > 0,
{
    reveal_strlit("copilot_placeholder");
}

/// The key is one of the six texts that can be configured, character for character.
pub proof fn law_key_is_a_configured_text(provider: ProviderModel)
    ensures
        provider.api_key() matches Some(key) ==> {
            &&& key.len() > 0
            &&& {
                ||| provider.env_text("ANTHROPIC_AUTH_TOKEN"@) == Some(key)
                ||| provider.env_text("ANTHROPIC_API_KEY"@) == Some(key)
                ||| provider.env_text("OPENROUTER_API_KEY"@) == Some(key)
                ||| provider.env_text("OPENAI_API_KEY"@) == Some(key)
                ||| provider.settings.member_text("apiKey"@) == Some(key)
                ||| provider.settings.member_text("api_key"@) == Some(key)
            }
        },
{
}

/// Every strategy presents the key as a bearer token, first of all.
pub proof fn law_bearer_comes_first(strategy: AuthStrategy, key: Seq<char>)
    ensures
        auth_headers(strategy, key).len() > 0,
        auth_headers(strategy, key)[0] == bearer_header(key),
{
}

/// The headers hold one with this name.
pub open spec fn names_header(headers: Seq<(Seq<char>, Seq<char>)>, name: Seq<char>) -> bool {
    exists|i: int| 0 <= i < headers.len() && #[trigger] headers[i].0 == name
}

/// The key is sent a second time, as an API key, to plain providers alone.
pub proof fn law_api_key_header_for_plain_kind(kind: ProviderType, key: Seq<char>)
    ensures
        names_header(auth_headers(strategy_of(kind), key), "x-api-key"@) <==> kind
            == ProviderType::Claude,
{
    let headers = auth_headers(strategy_of(kind), key);
    reveal_strlit("x-api-key");
    reveal_strlit("Authorization");
    reveal_strlit("Editor-Version");
    reveal_strlit("Editor-Plugin-Version");
    reveal_strlit("Copilot-Integration-Id");
    assert("x-api-key"@[0] == 'x');
    assert("Authorization"@[0] == 'A');
    assert("Editor-Version"@[0] == 'E');
    assert("Editor-Plugin-Version"@[0] == 'E');
    assert("Copilot-Integration-Id"@[0] == 'C');
    if kind == ProviderType::Claude {
        assert(headers[1].0 == "x-api-key"@);
    }
}

/// A translated error reads as an error, with the type and the message of the upstream or what
/// stands in for them.
pub proof fn law_translated_error_reads_back(body: JsonTree)
    ensures
        translated_error(body).member_text("type"@) == Some("error"@),
        translated_error(body).member("error"@) matches Some(error) && error.member_text("type"@)
            == Some(error_detail(body, "type"@, "invalid_request_error"@)) && error.member_text(
            "message"@,
        ) == Some(error_detail(body, "message"@, "Upstream error"@)),
{
    reveal_strlit("type");
    reveal_strlit("error");
    reveal_strlit("message");
    assert("type"@.len() != "error"@.len());
    assert("type"@.len() != "message"@.len());
}

/// Translating a translated error changes nothing.
pub proof fn law_translation_is_stable(body: JsonTree)
    ensures
        translated_error(translated_error(body)) == translated_error(body),
{
    law_translated_error_reads_back(body);
}

} // verus!
