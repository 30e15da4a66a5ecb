//! Which providers a request is offered to, and in which order.

use vstd::prelude::*;

use crate::circuit::{circuit_key, circuit_key_of};
use crate::provider::{Provider, ProxyError};
use crate::string_map::StringMap;

verus! {

/// What has been learned so far while the providers for a request are selected. A field is filled
/// in once the read or the probe that it stands for has been made.
pub struct SelectionReplies {
    /// Whether automatic failover is enabled, or why the proxy configuration cannot be read.
    pub auto_failover_enabled: Option<Result<bool, String>>,
    /// All providers by their identifiers, or why they cannot be read.
    pub all_providers: Option<Result<StringMap<Provider>, String>>,
    /// The identifiers in the failover queue, or why it cannot be read.
    pub failover_queue: Option<Result<Vec<String>, String>>,
    /// Whether the circuit breaker of each queued provider lets requests through, in the order in
    /// which the breakers were probed.
    pub available: Vec<bool>,
    /// The current provider, or why it cannot be found.
    pub current_provider: Option<Result<Option<Provider>, ProxyError>>,
}

/// What is to be done next while the providers for a request are selected.
pub enum SelectionStep {
    /// Read the proxy configuration.
    ReadProxyConfig,
    /// Read all providers.
    ReadAllProviders,
    /// Read the failover queue.
    ReadFailoverQueue,
    /// Ask the circuit breaker under this key, which is created if need be, whether it is
    /// available.
    ProbeBreaker { circuit_key: String },
    /// Find the current provider.
    ReadCurrentProvider,
    /// The selection is made.
    Done(Result<Vec<Provider>, ProxyError>),
}

/// The model of [`SelectionStep`].
pub enum StepModel {
    ReadProxyConfig,
    ReadAllProviders,
    ReadFailoverQueue,
    ProbeBreaker(Seq<char>),
    ReadCurrentProvider,
    Done(Result<Seq<Provider>, ProxyError>),
}

impl View for SelectionStep {
    type V = StepModel;

    open spec fn view(&self) -> StepModel {
        match *self {
            SelectionStep::ReadProxyConfig => StepModel::ReadProxyConfig,
            SelectionStep::ReadAllProviders => StepModel::ReadAllProviders,
            SelectionStep::ReadFailoverQueue => StepModel::ReadFailoverQueue,
            SelectionStep::ProbeBreaker { circuit_key } => StepModel::ProbeBreaker(circuit_key@),
            SelectionStep::ReadCurrentProvider => StepModel::ReadCurrentProvider,
            SelectionStep::Done(Ok(providers)) => StepModel::Done(Ok(providers@)),
            SelectionStep::Done(Err(error)) => StepModel::Done(Err(error)),
        }
    }
}

/// The queued providers that exist, in the order of the queue.
pub open spec fn candidates(all: Map<Seq<char>, Provider>, queue: Seq<String>) -> Seq<
    Provider,
> {
    queue.filter(|id: String| all.contains_key(id@)).map_values(|id: String| all[id@])
}

/// The candidates whose circuit breaker is available, in the same order.
pub open spec fn available_ones(
    candidates: Seq<Provider>,
    available: Seq<bool>,
) -> Seq<Provider>
    decreases candidates.len(),
{
    if candidates.len() == 0 {
        Seq::empty()
    } else {
        let earlier = available_ones(candidates.drop_last(), available);
        if available[candidates.len() - 1] {
            earlier.push(candidates.last())
        } else {
            earlier
        }
    }
}

/// The selection from a failover queue: the available candidates; where there are none, an error
/// that says whether every place in the queue is held by a provider with an open circuit.
pub open spec fn failover_selection(
    all: Map<Seq<char>, Provider>,
    queue: Seq<String>,
    available: Seq<bool>,
) -> Result<Seq<Provider>, ProxyError> {
    let known = candidates(all, queue);
    let chosen = available_ones(known, available);
    if chosen.len() > 0 {
        Ok(chosen)
    } else if queue.len() > 0 && known.len() == queue.len() {
        Err(ProxyError::AllProvidersCircuitOpen)
    } else {
        Err(ProxyError::NoProvidersConfigured)
    }
}

/// The step in a failover queue: probe the next candidate, or make the selection.
pub open spec fn failover_step(
    app_type: Seq<char>,
    all: Map<Seq<char>, Provider>,
    queue: Seq<String>,
    available: Seq<bool>,
) -> StepModel {
    let known = candidates(all, queue);
    if available.len() < known.len() {
        StepModel::ProbeBreaker(circuit_key_of(app_type, known[available.len() as int].id@))
    } else {
        StepModel::Done(failover_selection(all, queue, available))
    }
}

/// The selection of the current provider alone.
pub open spec fn current_selection(current: Result<Option<Provider>, ProxyError>) -> Result<
    Seq<Provider>,
    ProxyError,
> {
    match current {
        Ok(Some(provider)) => Ok(seq![provider]),
        Ok(None) => Err(ProxyError::NoProvidersConfigured),
        Err(error) => Err(error),
    }
}

/// The step that follows from what has been learned so far. A proxy configuration that cannot be
/// read counts as one without automatic failover.
pub open spec fn selection_step(app_type: Seq<char>, replies: SelectionReplies) -> StepModel {
    match replies.auto_failover_enabled {
        None => StepModel::ReadProxyConfig,
        Some(Ok(true)) => match replies.all_providers {
            None => StepModel::ReadAllProviders,
            Some(Err(message)) => StepModel::Done(Err(ProxyError::DatabaseError(message))),
            Some(Ok(all)) => match replies.failover_queue {
                None => StepModel::ReadFailoverQueue,
                Some(Err(message)) => StepModel::Done(Err(ProxyError::DatabaseError(message))),
                Some(Ok(queue)) => failover_step(app_type, all@, queue@, replies.available@),
            },
        },
        Some(_) => match replies.current_provider {
            None => StepModel::ReadCurrentProvider,
            Some(current) => StepModel::Done(current_selection(current)),
        },
    }
}

impl SelectionReplies {
    /// Nothing has been learned yet.
    pub fn new() -> (replies: SelectionReplies)
        ensures
            replies.auto_failover_enabled is None,
            replies.all_providers is None,
            replies.failover_queue is None,
            replies.available@.len() == 0,
            replies.current_provider is None,
    {
        SelectionReplies {
            auto_failover_enabled: None,
            all_providers: None,
            failover_queue: None,
            available: Vec::new(),
            current_provider: None,
        }
    }
}

/// One more place in the queue adds its provider, if there is one, at the end.
proof fn lemma_candidates_next(all: Map<Seq<char>, Provider>, queue: Seq<String>, at: int)
    requires
        0 <= at < queue.len(),
    ensures
        candidates(all, queue.take(at + 1)) == if all.contains_key(queue[at]@) {
            candidates(all, queue.take(at)).push(all[queue[at]@])
        } else {
            candidates(all, queue.take(at))
        },
{
    let known = |id: String| all.contains_key(id@);
    reveal(Seq::filter);
    assert(queue.take(at + 1).drop_last() =~= queue.take(at));
    assert(queue.take(at + 1).last() == queue[at]);
    if all.contains_key(queue[at]@) {
        assert(queue.take(at + 1).filter(known) == queue.take(at).filter(known).push(queue[at]));
        assert(candidates(all, queue.take(at + 1)) =~= candidates(all, queue.take(at)).push(
            all[queue[at]@],
        ));
    }
}

/// The candidates of the first places are the first candidates.
proof fn lemma_candidates_prefix(all: Map<Seq<char>, Provider>, queue: Seq<String>, upto: int)
    requires
        0 <= upto <= queue.len(),
    ensures
        candidates(all, queue.take(upto)).len() <= candidates(all, queue).len(),
        forall|i: int|
            0 <= i < candidates(all, queue.take(upto)).len() ==> candidates(
                all,
                queue.take(upto),
            )[i] == candidates(all, queue)[i],
    decreases queue.len() - upto,
{
    if upto == queue.len() {
        assert(queue.take(upto) =~= queue);
    } else {
        lemma_candidates_prefix(all, queue, upto + 1);
        lemma_candidates_next(all, queue, upto);
    }
}

/// The step in a failover queue.
pub(crate) fn next_in_failover(
    app_type: &str,
    all: &StringMap<Provider>,
    queue: &Vec<String>,
    available: &Vec<bool>,
) -> (step: SelectionStep)
    ensures
        step@ == failover_step(app_type@, all@, queue@, available@),
{
    let mut result: Vec<Provider> = Vec::new();
    let mut probed: usize = 0;
    let mut circuit_open_count: usize = 0;
    let mut i: usize = 0;
    proof {
        assert(queue@.take(0) =~= Seq::empty());
        reveal(Seq::filter);
        assert(candidates(all@, queue@.take(0)) =~= Seq::empty());
    }
    while i < queue.len()
        invariant
            i <= queue@.len(),
            probed <= i,
            probed <= available@.len(),
            probed == candidates(all@, queue@.take(i as int)).len(),
            result@ == available_ones(
                candidates(all@, queue@.take(i as int)),
                available@,
            ),
            circuit_open_count + result@.len() == probed,
        decreases queue@.len() - i,
    {
        proof {
            lemma_candidates_next(all@, queue@, i as int);
            lemma_candidates_prefix(all@, queue@, i + 1);
        }
        let ghost known = candidates(all@, queue@.take(i as int));
        let ghost chosen = result@;
        if let Some(provider) = all.get(queue[i].as_str()) {
            if probed == available.len() {
                return SelectionStep::ProbeBreaker {
                    circuit_key: circuit_key(app_type, provider.id.as_str()),
                };
            }
            proof {
                assert(known.push(*provider).drop_last() =~= known);
            }
            if available[probed] {
                result.push(provider.clone());
                proof {
                    assert(result@ =~= chosen.push(*provider));
                }
            } else {
                circuit_open_count += 1;
            }
            probed += 1;
        }
        i += 1;
    }
    proof {
        assert(queue@.take(queue@.len() as int) =~= queue@);
    }
    if result.len() == 0 {
        if queue.len() > 0 && circuit_open_count == queue.len() {
            SelectionStep::Done(Err(ProxyError::AllProvidersCircuitOpen))
        } else {
            SelectionStep::Done(Err(ProxyError::NoProvidersConfigured))
        }
    } else {
        SelectionStep::Done(Ok(result))
    }
}

/// The step that follows from what has been learned so far.
pub(crate) fn next_step(app_type: &str, replies: &SelectionReplies) -> (step: SelectionStep)
    ensures
        step@ == selection_step(app_type@, *replies),
{
    let auto_failover_enabled = match &replies.auto_failover_enabled {
        None => {
            return SelectionStep::ReadProxyConfig;
        },
        Some(Ok(enabled)) => *enabled,
        Some(Err(_)) => false,
    };
    if auto_failover_enabled {
        match &replies.all_providers {
            None => SelectionStep::ReadAllProviders,
            Some(Err(message)) => SelectionStep::Done(
                Err(ProxyError::DatabaseError(message.clone())),
            ),
            Some(Ok(all)) => match &replies.failover_queue {
                None => SelectionStep::ReadFailoverQueue,
                Some(Err(message)) => SelectionStep::Done(
                    Err(ProxyError::DatabaseError(message.clone())),
                ),
                Some(Ok(queue)) => next_in_failover(app_type, all, queue, &replies.available),
            },
        }
    } else {
        match &replies.current_provider {
            None => SelectionStep::ReadCurrentProvider,
            Some(Ok(Some(provider))) => {
                let mut result: Vec<Provider> = Vec::new();
                result.push(provider.clone());
                proof {
                    assert(result@ =~= seq![*provider]);
                }
                SelectionStep::Done(Ok(result))
            },
            Some(Ok(None)) => SelectionStep::Done(Err(ProxyError::NoProvidersConfigured)),
            Some(Err(error)) => SelectionStep::Done(Err(error.clone())),
        }
    }
}

} // verus!
