//! What the router does with what it is told, said of its inputs and its state themselves.

use vstd::prelude::*;

use crate::circuit::{circuit_key_of, lemma_before_first, lemma_before_none, CircuitBreakerConfig};
use crate::laws::{
    are_places_of_chosen, law_selection_errors, law_selection_keeps_order, lemma_all_known,
};
use crate::provider::{Provider, ProxyError};
use crate::router::{load_step, LoadStep, LoadedProvider, RouterModel};
use crate::selection::{
    available_ones, candidates, failover_selection, failover_step, selection_step, SelectionReplies,
    SelectionStep, StepModel,
};
use crate::text::before_first;
use crate::watch::{announces_change, SignalKind};

verus! {

/// The places stand in rising order.
pub open spec fn rising(places: Seq<int>) -> bool {
    forall|i: int, j: int|
        0 <= i < j < places.len() ==> #[trigger] places[i] < #[trigger] places[j]
}

/// `places` are the places of the queue, all of them and in order, that name a provider that
/// exists, and `known` are the providers that they name.
pub open spec fn are_known_places(
    places: Seq<int>,
    all: Map<Seq<char>, Provider>,
    queue: Seq<String>,
    known: Seq<Provider>,
) -> bool {
    &&& rising(places)
    &&& places.len() == known.len()
    &&& forall|i: int|
        0 <= i < places.len() ==> 0 <= #[trigger] places[i] < queue.len() && all.contains_key(
            queue[places[i]]@,
        ) && known[i] == all[queue[places[i]]@]
    &&& forall|place: int|
        0 <= place < queue.len() && all.contains_key(queue[place]@) ==> #[trigger] places.contains(
            place,
        )
}

/// The candidates are the providers that the queue names and that exist: each of them, as often
/// as the queue names it, in the order of the queue.
pub proof fn law_candidates_follow_the_queue(all: Map<Seq<char>, Provider>, queue: Seq<String>)
    ensures
        exists|places: Seq<int>|
            are_known_places(places, all, queue, candidates(all, queue)),
    decreases queue.len(),
{
    let known = |id: String| all.contains_key(id@);
    reveal(Seq::filter);
    if queue.len() == 0 {
        let places = Seq::<int>::empty();
        assert(are_known_places(places, all, queue, candidates(all, queue)));
    } else {
        let earlier = queue.drop_last();
        let last = queue.len() - 1;
        law_candidates_follow_the_queue(all, earlier);
        let before = choose|places: Seq<int>|
            are_known_places(places, all, earlier, candidates(all, earlier));
        assert(queue.filter(known) == if known(queue.last()) {
            earlier.filter(known).push(queue.last())
        } else {
            earlier.filter(known)
        });
        let places = if all.contains_key(queue[last]@) {
            before.push(last)
        } else {
            before
        };
        if all.contains_key(queue[last]@) {
            assert(candidates(all, queue) =~= candidates(all, earlier).push(all[queue[last]@]));
        }
        assert forall|place: int|
            0 <= place < queue.len() && all.contains_key(
                queue[place]@,
            ) implies #[trigger] places.contains(place) by {
            if place < last {
                assert(earlier[place] == queue[place]);
                assert(before.contains(place));
                let i = before.index_of(place);
                assert(places[i] == place);
            } else {
                assert(places[places.len() - 1] == place);
            }
        }
        assert(are_known_places(places, all, queue, candidates(all, queue)));
    }
}

/// `places` are the places, all of them and in order, at which the answer is that the circuit
/// breaker is available, and `chosen` are the candidates at these places.
pub open spec fn are_offered_places(
    places: Seq<int>,
    known: Seq<Provider>,
    available: Seq<bool>,
    chosen: Seq<Provider>,
) -> bool {
    &&& rising(places)
    &&& places.len() == chosen.len()
    &&& forall|i: int|
        0 <= i < places.len() ==> 0 <= #[trigger] places[i] < known.len() && available[places[i]]
            && chosen[i] == known[places[i]]
    &&& forall|place: int|
        0 <= place < known.len() && available[place] ==> #[trigger] places.contains(place)
}

/// Once there is an answer for every candidate, a selection from the failover queue that succeeds
/// is all the candidates whose circuit breaker is available, in the order of the queue, and it
/// succeeds if there is any. Else it fails with the open circuits as the reason if the queue is not
/// empty and names only providers that exist, and as one without providers if not.
pub proof fn law_failover_offers_every_available(
    all: Map<Seq<char>, Provider>,
    queue: Seq<String>,
    available: Seq<bool>,
)
    requires
        candidates(all, queue).len() <= available.len(),
    ensures
        ({
            let known = candidates(all, queue);
            let some_available = exists|i: int| 0 <= i < known.len() && #[trigger] available[i];
            let all_known = queue.len() > 0 && forall|i: int|
                0 <= i < queue.len() ==> all.contains_key(#[trigger] queue[i]@);
            match failover_selection(all, queue, available) {
                Ok(chosen) => some_available && exists|places: Seq<int>|
                    are_offered_places(places, known, available, chosen),
                Err(error) => !some_available && error == if all_known {
                    ProxyError::AllProvidersCircuitOpen
                } else {
                    ProxyError::NoProvidersConfigured
                },
            }
        }),
{
    let known = candidates(all, queue);
    law_selection_errors(all, queue, available);
    law_selection_keeps_order(known, available);
    let places = choose|places: Seq<int>| are_places_of_chosen(places, known, available);
    assert(are_offered_places(places, known, available, available_ones(known, available)));
    law_probes_are_bounded(all, queue);
    if failover_selection(all, queue, available) is Err && queue.len() > 0 && (forall|i: int|
        0 <= i < queue.len() ==> all.contains_key(#[trigger] queue[i]@)) {
        assert forall|i: int| 0 <= i < queue.len() implies !#[trigger] available[i] by {
            assert(known.len() == queue.len());
        }
    }
}

/// There are never more candidates than places in the queue, and as many exactly if every place
/// names a provider that exists.
pub proof fn law_probes_are_bounded(all: Map<Seq<char>, Provider>, queue: Seq<String>)
    ensures
        candidates(all, queue).len() <= queue.len(),
        candidates(all, queue).len() == queue.len() <==> (forall|i: int|
            0 <= i < queue.len() ==> all.contains_key(#[trigger] queue[i]@)),
{
    lemma_all_known(all, queue);
}

/// Each candidate is probed in turn, under the key made of the application, a colon and its
/// identifier; the selection is made once each has been.
pub proof fn law_next_candidate_is_probed(
    app_type: Seq<char>,
    all: Map<Seq<char>, Provider>,
    queue: Seq<String>,
    available: Seq<bool>,
)
    ensures
        available.len() < candidates(all, queue).len() ==> failover_step(
            app_type,
            all,
            queue,
            available,
        ) == StepModel::ProbeBreaker(
            app_type + ":"@ + candidates(all, queue)[available.len() as int].id@,
        ),
        candidates(all, queue).len() <= available.len() ==> failover_step(
            app_type,
            all,
            queue,
            available,
        ) == StepModel::Done(failover_selection(all, queue, available)),
{
    reveal_strlit(":");
    assert(":"@ =~= seq![':']);
}

/// With automatic failover, the providers and the queue are read first, in this order, and a read
/// that fails ends the selection with its message; the current provider plays no part. When both
/// have been read, the selection goes on as the queue asks.
pub proof fn law_failover_reads(app_type: Seq<char>, replies: SelectionReplies)
    requires
        replies.auto_failover_enabled == Some(Ok::<bool, String>(true)),
    ensures
        replies.all_providers is None ==> selection_step(app_type, replies)
            == StepModel::ReadAllProviders,
        replies.all_providers matches Some(Err(message)) ==> selection_step(app_type, replies)
            == StepModel::Done(Err(ProxyError::DatabaseError(message))),
        replies.all_providers matches Some(Ok(all)) ==> {
            &&& replies.failover_queue is None ==> selection_step(app_type, replies)
                == StepModel::ReadFailoverQueue
            &&& replies.failover_queue matches Some(Err(message)) ==> selection_step(
                app_type,
                replies,
            ) == StepModel::Done(Err(ProxyError::DatabaseError(message)))
            &&& replies.failover_queue matches Some(Ok(queue)) ==> selection_step(
                app_type,
                replies,
            ) == failover_step(app_type, all@, queue@, replies.available@)
        },
        forall|current: Option<Result<Option<Provider>, ProxyError>>|
            #[trigger] selection_step(
                app_type,
                SelectionReplies { current_provider: current, ..replies },
            ) == selection_step(app_type, replies),
{
}

/// Without automatic failover, whether it is off or its setting cannot be read, the selection is
/// the current provider alone, an error if there is none, and the error of its search if that
/// failed; the queue, the answers of circuit breakers and the other providers play no part.
pub proof fn law_selection_without_failover(
    app_type: Seq<char>,
    replies: SelectionReplies,
    other: SelectionReplies,
)
    requires
        replies.auto_failover_enabled matches Some(setting) && setting != Ok::<bool, String>(true),
        other.auto_failover_enabled matches Some(setting) && setting != Ok::<bool, String>(true),
        other.current_provider == replies.current_provider,
    ensures
        replies.current_provider is None ==> selection_step(app_type, replies)
            == StepModel::ReadCurrentProvider,
        replies.current_provider matches Some(Ok(Some(provider))) ==> selection_step(
            app_type,
            replies,
        ) matches StepModel::Done(Ok(chosen)) && chosen.len() == 1 && chosen[0] == provider,
        replies.current_provider matches Some(Ok(None)) ==> selection_step(app_type, replies)
            == StepModel::Done(Err(ProxyError::NoProvidersConfigured)),
        replies.current_provider matches Some(Err(error)) ==> selection_step(app_type, replies)
            == StepModel::Done(Err(error)),
        selection_step(app_type, other) == selection_step(app_type, replies),
{
}

/// The setting of automatic failover is read before anything else.
pub proof fn law_setting_is_read_first(app_type: Seq<char>, replies: SelectionReplies)
    ensures
        selection_step(app_type, replies) == StepModel::ReadProxyConfig
            <==> replies.auto_failover_enabled is None,
{
}

/// The model of a step is the step, with the key and the chosen providers as they are.
pub proof fn law_step_model_is_the_step(step: SelectionStep)
    ensures
        step is ReadProxyConfig <==> step@ is ReadProxyConfig,
        step is ReadAllProviders <==> step@ is ReadAllProviders,
        step is ReadFailoverQueue <==> step@ is ReadFailoverQueue,
        step is ReadCurrentProvider <==> step@ is ReadCurrentProvider,
        step is ProbeBreaker <==> step@ is ProbeBreaker,
        step is Done <==> step@ is Done,
        step matches SelectionStep::ProbeBreaker { circuit_key } ==> step@
            == StepModel::ProbeBreaker(circuit_key@),
        step matches SelectionStep::Done(Ok(providers)) ==> step@ == StepModel::Done(
            Ok(providers@),
        ),
        step matches SelectionStep::Done(Err(error)) ==> step@ == StepModel::Done(Err(error)),
{
}

/// A key is the application, a colon and the provider.
pub proof fn law_text_of_key(app_type: Seq<char>, provider_id: Seq<char>)
    ensures
        circuit_key_of(app_type, provider_id) == app_type + ":"@ + provider_id,
{
    reveal_strlit(":");
    assert(":"@ =~= seq![':']);
}

/// The application of a key is what stands before its first colon, and all of a key without one.
pub proof fn law_application_of_key(application: Seq<char>, rest: Seq<char>)
    requires
        !application.contains(':'),
    ensures
        before_first(application + ":"@ + rest, ':') == application,
        before_first(application, ':') == application,
{
    reveal_strlit(":");
    assert(":"@ =~= seq![':']);
    lemma_before_first(application, ':', rest);
    lemma_before_none(application, ':');
}

/// A file that was created or modified announces a change, and no other event does.
pub proof fn law_signals_that_announce()
    ensures
        announces_change(SignalKind::Create),
        announces_change(SignalKind::Modify),
        !announces_change(SignalKind::Any),
        !announces_change(SignalKind::Access),
        !announces_change(SignalKind::Remove),
        !announces_change(SignalKind::Other),
{
}

/// A new router has no circuit breaker, serves no provider and has had no signal.
pub proof fn law_new_router<B>(key: Seq<char>)
    ensures
        !RouterModel::<B>::initial().breakers.contains_key(key),
        !RouterModel::<B>::initial().cache.contains_key(key),
        RouterModel::<B>::initial().served(key) is None,
        RouterModel::<B>::initial().version == 0,
{
}

/// A provider is served exactly if it is the cached one and was loaded for the present version.
pub proof fn law_served_provider<B>(
    router: RouterModel<B>,
    app_type: Seq<char>,
    provider: Provider,
)
    ensures
        router.served(app_type) == Some(provider) <==> {
            &&& router.cache.contains_key(app_type)
            &&& router.cache[app_type].provider == provider
            &&& router.cache[app_type].version == router.version
        },
{
}

/// A change signal raises the version by one and leaves everything else.
pub proof fn law_signal_raises_version<B>(router: RouterModel<B>)
    requires
        router.version < u64::MAX,
    ensures
        router.after_signal().version == router.version + 1,
        router.after_signal().cache == router.cache,
        router.after_signal().breakers == router.breakers,
{
}

/// After a load, the cache holds for its application the provider that was found, with the version
/// it was loaded for; nothing if none was found; and what it held if the load failed. Every other
/// application, the version and the circuit breakers are as before.
pub proof fn law_load_changes_one_entry<B>(
    router: RouterModel<B>,
    app_type: Seq<char>,
    version: u64,
    loaded: LoadedProvider,
    other: Seq<char>,
)
    ensures
        ({
            let after = router.after_load(app_type, version, loaded);
            &&& loaded matches Ok(Some(provider)) ==> after.cache.contains_key(app_type)
                && after.cache[app_type].provider == provider && after.cache[app_type].version
                == version
            &&& loaded matches Ok(None) ==> !after.cache.contains_key(app_type)
            &&& loaded is Err ==> after == router
            &&& other != app_type ==> after.cache.contains_key(other)
                == router.cache.contains_key(other)
            &&& other != app_type && router.cache.contains_key(other) ==> after.cache[other]
                == router.cache[other]
            &&& after.version == router.version
            &&& after.breakers == router.breakers
        }),
{
}

/// Loads are put into the cache one after the other: of several for one application, what the last
/// of them found counts.
pub proof fn law_loads_one_after_the_other<B>(
    router: RouterModel<B>,
    version: u64,
    first: Seq<(String, LoadedProvider)>,
    second: Seq<(String, LoadedProvider)>,
)
    ensures
        router.after_loads(version, Seq::empty()) == router,
        router.after_loads(version, first + second) == router.after_loads(
            version,
            first,
        ).after_loads(version, second),
        first.len() == 1 ==> router.after_loads(version, first) == router.after_load(
            first[0].0@,
            version,
            first[0].1,
        ),
    decreases second.len(),
{
    if second.len() == 0 {
        assert(first + second =~= first);
    } else {
        law_loads_one_after_the_other(router, version, first, second.drop_last());
        assert((first + second).drop_last() =~= first + second.drop_last());
    }
    if first.len() == 1 {
        assert(first.drop_last() =~= Seq::empty());
        assert(router.after_loads(version, first.drop_last()) == router);
    }
}

/// The circuit breaker that is handed out for a key is the one under it, and none is handed out
/// exactly if there is none.
pub proof fn law_breaker_of_key<B>(router: RouterModel<B>, key: Seq<char>, breaker: &B)
    ensures
        router.is_breaker_of(key, None) <==> !router.breakers.contains_key(key),
        router.is_breaker_of(key, Some(breaker)) <==> router.breakers.contains_key(key)
            && router.breakers[key] == *breaker,
{
}

/// Asking for a circuit breaker makes the one that was brought along if there is none under the
/// key, and touches no other key, no cached provider and not the version.
pub proof fn law_breaker_is_made_once<B>(
    router: RouterModel<B>,
    key: Seq<char>,
    fresh: B,
    other: Seq<char>,
)
    ensures
        ({
            let after = router.with_breaker(key, fresh);
            &&& after.breakers.contains_key(key)
            &&& after.breakers[key] == if router.breakers.contains_key(key) {
                router.breakers[key]
            } else {
                fresh
            }
            &&& other != key ==> after.breakers.contains_key(other)
                == router.breakers.contains_key(other)
            &&& router.breakers.contains_key(other) ==> after.breakers[other]
                == router.breakers[other]
            &&& after.cache == router.cache
            &&& after.version == router.version
        }),
{
}

/// New limits reach every circuit breaker: for each key one of the updates is its circuit breaker
/// with these limits, there are as many updates as keys, and each update is for some key.
pub proof fn law_limits_reach_every_breaker<B>(
    router: RouterModel<B>,
    updates: Seq<(&B, CircuitBreakerConfig)>,
    config: CircuitBreakerConfig,
)
    requires
        router.covers_each_breaker(updates, config),
    ensures
        updates.len() == router.breakers.dom().len(),
        forall|key: Seq<char>| #[trigger]
            router.breakers.contains_key(key) ==> exists|i: int|
                0 <= i < updates.len() && *(#[trigger] updates[i]).0 == router.breakers[key]
                    && updates[i].1 == config,
        forall|i: int|
            0 <= i < updates.len() ==> (#[trigger] updates[i]).1 == config && exists|key: Seq<char>|
                #[trigger] router.breakers.contains_key(key) && *updates[i].0
                    == router.breakers[key],
{
    let keys = choose|keys: Seq<Seq<char>>|
        {
            &&& #[trigger] keys.no_duplicates()
            &&& keys.to_set() == router.breakers.dom()
            &&& keys.len() == updates.len()
            &&& forall|i: int|
                0 <= i < updates.len() ==> *(#[trigger] updates[i]).0 == router.breakers[keys[i]]
                    && updates[i].1 == config
        };
    keys.unique_seq_to_set();
    assert forall|key: Seq<char>| #[trigger] router.breakers.contains_key(key) implies exists|
        i: int,
    |
        0 <= i < updates.len() && *(#[trigger] updates[i]).0 == router.breakers[key]
            && updates[i].1 == config by {
        assert(keys.to_set().contains(key));
        let i = keys.index_of(key);
        assert(*updates[i].0 == router.breakers[key]);
    }
    assert forall|i: int| 0 <= i < updates.len() implies (#[trigger] updates[i]).1 == config
        && exists|key: Seq<char>| #[trigger]
        router.breakers.contains_key(key) && *updates[i].0 == router.breakers[key] by {
        assert(keys.to_set().contains(keys[i]));
        assert(router.breakers.contains_key(keys[i]));
    }
}

/// Loading the current provider starts with its identifier: without one, or where it cannot be
/// read, the load is over whatever else was read; else the provider with this identifier is read,
/// and what is found, or the message of a read that failed, is the outcome.
pub proof fn law_load_of_current_provider(
    message: String,
    id: String,
    found: Option<Provider>,
    read: Option<Result<Option<Provider>, String>>,
)
    ensures
        load_step(Err(message), read) == LoadStep::Done(Err(ProxyError::DatabaseError(message))),
        load_step(Ok(None), read) == LoadStep::Done(Ok(None)),
        load_step(Ok(Some(id)), None) == (LoadStep::ReadProvider { id }),
        load_step(Ok(Some(id)), Some(Ok(found))) == LoadStep::Done(Ok(found)),
        load_step(Ok(Some(id)), Some(Err(message))) == LoadStep::Done(
            Err(ProxyError::DatabaseError(message)),
        ),
{
}

} // verus!
