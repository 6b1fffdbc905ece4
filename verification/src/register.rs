//! What each call of a function of a collection of swap chains does.
//!
//! The laws speak of calls: of the table and the lists before and after a call, and of what the
//! call returns.

use core::hash::Hash;
use vstd::prelude::*;

use crate::chain::Creation;
use crate::chains::{keys, SwapChains};
use crate::provider::SurfmanProvider;
use crate::surface::{ContextID, Error, Size2D};
use crate::turns::starts_detached;

verus! {

/// Whether `id` is on the list of the producer context `context_id`.
pub open spec fn lists<SwapChainID>(
    ids: Map<ContextID, Set<SwapChainID>>,
    context_id: ContextID,
    id: SwapChainID,
) -> bool {
    ids.contains_key(context_id) && ids[context_id].contains(id)
}

/// A new collection has no swap chain, and no list.
pub proof fn new_collections_are_empty<SwapChainID: Clone + Eq + Hash, C>(
    created: SwapChains<SwapChainID, C>,
    defaulted: SwapChains<SwapChainID, C>,
    id: SwapChainID,
    context_id: ContextID,
)
    requires
        call_ensures(SwapChains::<SwapChainID, C>::new, (), created),
        call_ensures(<SwapChains<SwapChainID, C> as Default>::default, (), defaulted),
    ensures
        !created@.table.contains_key(id),
        !created@.ids.contains_key(context_id),
        !defaulted@.table.contains_key(id),
        !defaulted@.ids.contains_key(context_id),
{
}

/// An id is vacant if and only if it has no swap chain.
pub proof fn ids_are_vacant_without_a_chain<SwapChainID: Clone + Eq + Hash, C, E>(
    chains: &SwapChains<SwapChainID, C>,
    id: &SwapChainID,
    result: Result<(), Error<E>>,
)
    requires
        call_ensures(SwapChains::<SwapChainID, C>::check_vacant::<E>, (chains, id), result),
    ensures
        result is Ok <==> !chains@.table.contains_key(*id),
        result is Err ==> result == Err::<(), Error<E>>(Error::Failed),
{
}

/// Whether a collection got the swap chain `chain` for `id`, listed for the producer context
/// `context_id`, and is otherwise as it was.
pub open spec fn gains<SwapChainID: Clone + Eq + Hash, C>(
    before: SwapChains<SwapChainID, C>,
    id: SwapChainID,
    context_id: ContextID,
    chain: C,
    after: SwapChains<SwapChainID, C>,
) -> bool {
    &&& after@.table.contains_key(id)
    &&& after@.table[id] == chain
    &&& lists(after@.ids, context_id, id)
    &&& forall|other: SwapChainID|
        other != id ==> {
            &&& #[trigger] after@.table.contains_key(other) <==> before@.table.contains_key(other)
            &&& after@.table.contains_key(other) ==> after@.table[other] == before@.table[other]
        }
    &&& forall|context: ContextID, other: SwapChainID|
        !(context == context_id && other == id) ==> (#[trigger] lists(
            after@.ids,
            context,
            other,
        ) <==> lists(before@.ids, context, other))
}

/// A swap chain that is created under a vacant id gets into the table and on the list of its
/// producer context. Under an id that is taken, creation fails, and changes nothing.
pub proof fn attached_chains_are_registered<SwapChainID: Clone + Eq + Hash, C, E>(
    chains: &mut SwapChains<SwapChainID, C>,
    id: SwapChainID,
    context_id: ContextID,
    chain: C,
    result: Result<(), Error<E>>,
)
    requires
        call_ensures(
            SwapChains::<SwapChainID, C>::create_attached_swap_chain::<E>,
            (chains, id, context_id, chain),
            result,
        ),
    ensures
        old(chains)@.table.contains_key(id) ==> {
            &&& result == Err::<(), Error<E>>(Error::Failed)
            &&& final(chains)@ == old(chains)@
        },
        !old(chains)@.table.contains_key(id) ==> {
            &&& result is Ok
            &&& gains(*old(chains), id, context_id, chain, *final(chains))
        },
{
}

/// A detached swap chain that was created gets into the table and on the list of its producer
/// context, if its id is vacant. If its id is taken, or its creation failed, the result says so,
/// and nothing changes.
pub proof fn detached_chains_are_registered<SwapChainID: Clone + Eq + Hash, C, E>(
    chains: &mut SwapChains<SwapChainID, C>,
    id: SwapChainID,
    context_id: ContextID,
    created: Result<C, Error<E>>,
    result: Result<(), Error<E>>,
)
    requires
        call_ensures(
            SwapChains::<SwapChainID, C>::create_detached_swap_chain::<E>,
            (chains, id, context_id, created),
            result,
        ),
    ensures
        old(chains)@.table.contains_key(id) ==> {
            &&& result == Err::<(), Error<E>>(Error::Failed)
            &&& final(chains)@ == old(chains)@
        },
        !old(chains)@.table.contains_key(id) ==> match created {
            Ok(chain) => {
                &&& result is Ok
                &&& gains(*old(chains), id, context_id, chain, *final(chains))
            },
            Err(error) => {
                &&& result == Err::<(), Error<E>>(error)
                &&& final(chains)@ == old(chains)@
            },
        },
{
}

/// The creation of a detached swap chain starts only under a vacant id; its back buffer has the
/// size that was asked for.
pub proof fn detached_creations_start_under_vacant_ids<SwapChainID: Clone + Eq + Hash, C, H, E>(
    chains: &SwapChains<SwapChainID, C>,
    id: &SwapChainID,
    context_id: ContextID,
    provider: SurfmanProvider<H, E>,
    size: Size2D,
    started: Result<Creation<H, SurfmanProvider<H, E>>, Error<E>>,
)
    requires
        call_ensures(
            SwapChains::<SwapChainID, C>::start_detached::<H, SurfmanProvider<H, E>>,
            (chains, id, context_id, provider, size),
            started,
        ),
    ensures
        chains@.table.contains_key(*id) ==> started == Err::<
            Creation<H, SurfmanProvider<H, E>>,
            Error<E>,
        >(Error::Failed),
        !chains@.table.contains_key(*id) ==> starts_detached(context_id, provider, size, started),
{
    if !chains@.table.contains_key(*id) {
        crate::turns::creation_starts_detached(context_id, provider, size, started);
    }
}

/// A swap chain that is to be destroyed is handed out, and its id has no swap chain any more. The
/// other ids keep theirs, and the lists stay.
pub proof fn destroyed_chains_are_handed_out<SwapChainID: Clone + Eq + Hash, C>(
    chains: &mut SwapChains<SwapChainID, C>,
    id: &SwapChainID,
    chain: Option<C>,
)
    requires
        call_ensures(SwapChains::<SwapChainID, C>::destroy, (chains, id), chain),
    ensures
        chain is Some <==> old(chains)@.table.contains_key(*id),
        chain is Some ==> chain->0 == old(chains)@.table[*id],
        !final(chains)@.table.contains_key(*id),
        forall|other: SwapChainID|
            other != *id ==> {
                &&& #[trigger] final(chains)@.table.contains_key(other)
                    <==> old(chains)@.table.contains_key(other)
                &&& final(chains)@.table.contains_key(other) ==> final(chains)@.table[other]
                    == old(chains)@.table[other]
            },
        final(chains)@.ids == old(chains)@.ids,
{
}

/// What becomes of the destruction of a swap chain is the result; if there was none, all is well.
/// Its id leaves the list of the producer context that destroyed it, and all lists if that failed.
/// No other id leaves a list, and the table stays.
pub proof fn destroyed_chains_leave_the_lists<SwapChainID: Clone + Eq + Hash, C, E>(
    chains: &mut SwapChains<SwapChainID, C>,
    id: &SwapChainID,
    context_id: ContextID,
    destroyed: Option<Result<(), Error<E>>>,
    result: Result<(), Error<E>>,
)
    requires
        call_ensures(
            SwapChains::<SwapChainID, C>::finish_destroy::<E>,
            (chains, id, context_id, destroyed),
            result,
        ),
    ensures
        result is Err <==> destroyed is Some && destroyed->0 is Err,
        result is Err ==> result == destroyed->0,
        !lists(final(chains)@.ids, context_id, *id),
        result is Err ==> forall|context: ContextID| !#[trigger] lists(
            final(chains)@.ids,
            context,
            *id,
        ),
        forall|context: ContextID, other: SwapChainID|
            other != *id || (result is Ok && context != context_id) ==> (#[trigger] lists(
                final(chains)@.ids,
                context,
                other,
            ) <==> lists(old(chains)@.ids, context, other)),
        final(chains)@.table == old(chains)@.table,
{
}

/// Destroying all swap chains of a producer context hands out the ids on its list, each once, and
/// takes the list away. The other lists stay, and so does the table.
pub proof fn lists_are_handed_out<SwapChainID: Clone + Eq + Hash, C>(
    chains: &mut SwapChains<SwapChainID, C>,
    context_id: ContextID,
    doomed: Vec<SwapChainID>,
)
    requires
        call_ensures(SwapChains::<SwapChainID, C>::destroy_all, (chains, context_id), doomed),
    ensures
        forall|i: int, j: int| 0 <= i < j < doomed@.len() ==> doomed@[i] != doomed@[j],
        forall|id: SwapChainID| #[trigger]
            doomed@.contains(id) <==> lists(old(chains)@.ids, context_id, id),
        forall|id: SwapChainID| !#[trigger] lists(final(chains)@.ids, context_id, id),
        forall|context: ContextID, id: SwapChainID|
            context != context_id ==> (#[trigger] lists(final(chains)@.ids, context, id) <==> lists(
                old(chains)@.ids,
                context,
                id,
            )),
        final(chains)@.table == old(chains)@.table,
{
    assert forall|id: SwapChainID| #[trigger] doomed@.contains(id) <==> lists(
        old(chains)@.ids,
        context_id,
        id,
    ) by {
        assert(doomed@.to_set().contains(id) <==> doomed@.contains(id));
    }
}

/// Whether the next swap chain of the ids in `doomed` came out of a collection as it should: that
/// of an id behind which no id has one. It leaves the table, alone; its id and those behind it
/// leave the queue. If no id has a swap chain, none comes out, and the queue is empty.
pub open spec fn comes_out<SwapChainID: Clone + Eq + Hash, C>(
    before: SwapChains<SwapChainID, C>,
    doomed: Seq<SwapChainID>,
    chain: Option<C>,
    after: SwapChains<SwapChainID, C>,
    left: Seq<SwapChainID>,
) -> bool {
    &&& left.len() <= doomed.len()
    &&& forall|i: int| 0 <= i < left.len() ==> #[trigger] left[i] == doomed[i]
    &&& after@.ids == before@.ids
    &&& match chain {
        Some(chain) => {
            let id = doomed[left.len() as int];
            &&& left.len() < doomed.len()
            &&& before@.table.contains_key(id) && before@.table[id] == chain
            &&& forall|i: int|
                left.len() < i < doomed.len() ==> !before@.table.contains_key(
                    #[trigger] doomed[i],
                )
            &&& !after@.table.contains_key(id)
            &&& forall|other: SwapChainID|
                other != id ==> {
                    &&& #[trigger] after@.table.contains_key(other)
                        <==> before@.table.contains_key(other)
                    &&& after@.table.contains_key(other) ==> after@.table[other]
                        == before@.table[other]
                }
        },
        None => {
            &&& left.len() == 0
            &&& forall|i: int|
                0 <= i < doomed.len() ==> !before@.table.contains_key(#[trigger] doomed[i])
            &&& after@.table == before@.table
        },
    }
}

/// The swap chains of doomed ids come out one by one.
pub proof fn doomed_chains_come_out<SwapChainID: Clone + Eq + Hash, C>(
    chains: &mut SwapChains<SwapChainID, C>,
    doomed: &mut Vec<SwapChainID>,
    chain: Option<C>,
)
    requires
        call_ensures(SwapChains::<SwapChainID, C>::next_doomed, (chains, doomed), chain),
    ensures
        comes_out(*old(chains), old(doomed)@, chain, *final(chains), final(doomed)@),
{
}

/// The swap chains of doomed ids come out one by one, as long as each can be destroyed. The first
/// that cannot ends the work: its error is the result, nothing is doomed any more, and nothing else
/// changes.
pub proof fn doomed_chains_come_out_until_one_fails<SwapChainID: Clone + Eq + Hash, C, E>(
    chains: &mut SwapChains<SwapChainID, C>,
    doomed: &mut Vec<SwapChainID>,
    destroyed: Result<(), Error<E>>,
    next: Result<Option<C>, Error<E>>,
)
    requires
        call_ensures(
            SwapChains::<SwapChainID, C>::next_doomed_after::<E>,
            (chains, doomed, destroyed),
            next,
        ),
    ensures
        destroyed is Ok ==> {
            &&& next is Ok
            &&& comes_out(*old(chains), old(doomed)@, next->Ok_0, *final(chains), final(doomed)@)
        },
        destroyed matches Err(error) ==> {
            &&& next == Err::<Option<C>, Error<E>>(error)
            &&& final(doomed)@.len() == 0
            &&& final(chains)@ == old(chains)@
        },
{
}

/// An id stands for the swap chain in the table, and for none if the table has none.
pub proof fn ids_stand_for_their_chains<SwapChainID: Clone + Eq + Hash, C: Clone>(
    chains: &SwapChains<SwapChainID, C>,
    id: &SwapChainID,
    chain: Option<C>,
)
    requires
        call_ensures(SwapChains::<SwapChainID, C>::get, (chains, id), chain),
    ensures
        chain is Some <==> chains@.table.contains_key(*id),
        chain is Some ==> cloned(chains@.table[*id], chain->0),
{
}

/// A producer context is shown the swap chains of the ids on its list, each once and under its own
/// id, and no others.
pub proof fn contexts_are_shown_what_they_list<SwapChainID: Clone + Eq + Hash, C: Clone>(
    chains: &SwapChains<SwapChainID, C>,
    context_id: ContextID,
    shown: Vec<(SwapChainID, C)>,
)
    requires
        call_ensures(SwapChains::<SwapChainID, C>::iter, (chains, context_id), shown),
    ensures
        forall|i: int, j: int|
            0 <= i < j < shown@.len() ==> (#[trigger] shown@[i]).0 != (#[trigger] shown@[j]).0,
        forall|i: int|
            0 <= i < shown@.len() ==> {
                &&& lists(chains@.ids, context_id, (#[trigger] shown@[i]).0)
                &&& chains@.table.contains_key(shown@[i].0)
                &&& cloned(chains@.table[shown@[i].0], shown@[i].1)
            },
        forall|id: SwapChainID| #[trigger]
            lists(chains@.ids, context_id, id) && chains@.table.contains_key(id) ==> exists|i: int|
                0 <= i < shown@.len() && (#[trigger] shown@[i]).0 == id,
{
    let ids = keys(shown@);
    assert forall|i: int, j: int| 0 <= i < j < shown@.len() implies (#[trigger] shown@[i]).0 != (
    #[trigger] shown@[j]).0 by {
        assert(ids[i] != ids[j]);
    }
    assert forall|i: int| 0 <= i < shown@.len() implies {
        &&& lists(chains@.ids, context_id, (#[trigger] shown@[i]).0)
        &&& chains@.table.contains_key(shown@[i].0)
        &&& cloned(chains@.table[shown@[i].0], shown@[i].1)
    } by {
        assert(ids[i] == shown@[i].0);
        assert(ids.to_set().contains(shown@[i].0));
    }
    assert forall|id: SwapChainID| #[trigger]
        lists(chains@.ids, context_id, id) && chains@.table.contains_key(id) implies exists|i: int|
        0 <= i < shown@.len() && (#[trigger] shown@[i]).0 == id by {
        assert(ids.to_set().contains(id));
        let i = ids.index_of(id);
        assert(shown@[i].0 == id);
    }
}

/// A swap chain that was created is what its id stands for afterwards, and its producer context is
/// shown it.
pub proof fn created_chains_can_be_got<SwapChainID: Clone + Eq + Hash, C: Clone, E>(
    creating: &mut SwapChains<SwapChainID, C>,
    id: SwapChainID,
    context_id: ContextID,
    chain: C,
    result: Result<(), Error<E>>,
    chains: &SwapChains<SwapChainID, C>,
    got: Option<C>,
    shown: Vec<(SwapChainID, C)>,
)
    requires
        call_ensures(
            SwapChains::<SwapChainID, C>::create_attached_swap_chain::<E>,
            (creating, id, context_id, chain),
            result,
        ),
        result is Ok,
        *chains == *final(creating),
        call_ensures(SwapChains::<SwapChainID, C>::get, (chains, &id), got),
        call_ensures(SwapChains::<SwapChainID, C>::iter, (chains, context_id), shown),
    ensures
        got is Some,
        cloned(chain, got->0),
        exists|i: int|
            {
                &&& 0 <= i < shown@.len()
                &&& (#[trigger] shown@[i]).0 == id
                &&& cloned(chain, shown@[i].1)
            },
{
    attached_chains_are_registered(creating, id, context_id, chain, result);
    ids_stand_for_their_chains(chains, &id, got);
    contexts_are_shown_what_they_list(chains, context_id, shown);
    assert(lists(chains@.ids, context_id, id));
}

} // verus!
