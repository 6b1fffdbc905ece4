//! Which swap chains of a collection belong to which producer context.
//!
//! A collection lists the ids of its swap chains by producer context. The laws here say when the
//! lists tell the truth.

use vstd::prelude::*;

use crate::chains::ChainsState;
use crate::surface::{ContextID, Error};

verus! {

/// Whether the lists tell the truth: a producer context's list has the ids of its swap chains,
/// and no others. `owner` says which producer context a swap chain belongs to.
pub open spec fn tidy<SwapChainID, C>(
    chains: ChainsState<SwapChainID, C>,
    owner: spec_fn(C) -> ContextID,
) -> bool {
    forall|context_id: ContextID, id: SwapChainID| #[trigger]
        chains.listed(context_id).contains(id) <==> owns(chains, owner, context_id, id)
}

/// Whether `id` has a swap chain that belongs to the producer context `context_id`.
pub open spec fn owns<SwapChainID, C>(
    chains: ChainsState<SwapChainID, C>,
    owner: spec_fn(C) -> ContextID,
    context_id: ContextID,
    id: SwapChainID,
) -> bool {
    chains.table.contains_key(id) && owner(chains.table[id]) == context_id
}

/// In a new collection the lists tell the truth.
pub proof fn new_collections_are_tidy<SwapChainID, C>(
    chains: ChainsState<SwapChainID, C>,
    owner: spec_fn(C) -> ContextID,
)
    requires
        chains == (ChainsState {
            ids: Map::<ContextID, Set<SwapChainID>>::empty(),
            table: Map::<SwapChainID, C>::empty(),
        }),
    ensures
        tidy(chains, owner),
{
}

/// A swap chain that was created under an id is what the id stands for from then on. The other
/// ids stand for what they stood for, and the lists still tell the truth.
pub proof fn created_chains_are_found<SwapChainID, C>(
    chains: ChainsState<SwapChainID, C>,
    owner: spec_fn(C) -> ContextID,
    id: SwapChainID,
    context_id: ContextID,
    chain: C,
)
    requires
        !chains.table.contains_key(id),
    ensures
        chains.with_chain(id, context_id, chain).chain(id) == Some(chain),
        chains.with_chain(id, context_id, chain).listed(context_id).contains(id),
        forall|other: SwapChainID|
            other != id ==> #[trigger] chains.with_chain(id, context_id, chain).chain(other)
                == chains.chain(other),
        tidy(chains, owner) && owner(chain) == context_id ==> tidy(
            chains.with_chain(id, context_id, chain),
            owner,
        ),
{
    let created = chains.with_chain(id, context_id, chain);
    if tidy(chains, owner) && owner(chain) == context_id {
        assert forall|c: ContextID, other: SwapChainID| #[trigger]
            created.listed(c).contains(other) <==> owns(created, owner, c, other) by {
            assert(chains.listed(c).contains(other) <==> owns(chains, owner, c, other));
        }
    }
}

/// A swap chain that its producer context destroyed is gone, from the table and from the lists.
/// The other ids stand for what they stood for, and the lists still tell the truth.
pub proof fn destroyed_chains_are_gone<SwapChainID, C>(
    chains: ChainsState<SwapChainID, C>,
    owner: spec_fn(C) -> ContextID,
    id: SwapChainID,
    context_id: ContextID,
)
    ensures
        chains.without(id).unlisted(id, context_id).chain(id) is None,
        !chains.without(id).unlisted(id, context_id).listed(context_id).contains(id),
        forall|other: SwapChainID|
            other != id ==> #[trigger] chains.without(id).unlisted(id, context_id).chain(other)
                == chains.chain(other),
        tidy(chains, owner) && (chains.table.contains_key(id) ==> owner(chains.table[id])
            == context_id) ==> tidy(chains.without(id).unlisted(id, context_id), owner),
{
    let destroyed = chains.without(id).unlisted(id, context_id);
    if tidy(chains, owner) && (chains.table.contains_key(id) ==> owner(chains.table[id])
        == context_id) {
        assert forall|c: ContextID, other: SwapChainID| #[trigger]
            destroyed.listed(c).contains(other) <==> owns(destroyed, owner, c, other) by {
            assert(chains.listed(c).contains(other) <==> owns(chains, owner, c, other));
        }
    }
}

/// A swap chain whose destruction failed is gone all the same, from the table and from all lists.
/// The other ids stand for what they stood for, and the lists still tell the truth.
pub proof fn failed_destructions_leave_no_trace<SwapChainID, C>(
    chains: ChainsState<SwapChainID, C>,
    owner: spec_fn(C) -> ContextID,
    id: SwapChainID,
)
    ensures
        chains.without(id).unlisted_everywhere(id).chain(id) is None,
        forall|context_id: ContextID|
            !(#[trigger] chains.without(id).unlisted_everywhere(id).listed(context_id)).contains(
                id,
            ),
        forall|other: SwapChainID|
            other != id ==> #[trigger] chains.without(id).unlisted_everywhere(id).chain(other)
                == chains.chain(other),
        tidy(chains, owner) ==> tidy(chains.without(id).unlisted_everywhere(id), owner),
{
    let destroyed = chains.without(id).unlisted_everywhere(id);
    if tidy(chains, owner) {
        assert forall|c: ContextID, other: SwapChainID| #[trigger]
            destroyed.listed(c).contains(other) <==> owns(destroyed, owner, c, other) by {
            assert(chains.listed(c).contains(other) <==> owns(chains, owner, c, other));
        }
    }
}

/// Where the lists tell the truth, the swap chains that a producer context is shown are its own.
pub proof fn a_context_is_shown_its_own<SwapChainID, C>(
    chains: ChainsState<SwapChainID, C>,
    owner: spec_fn(C) -> ContextID,
    context_id: ContextID,
    id: SwapChainID,
)
    requires
        tidy(chains, owner),
    ensures
        chains.listed(context_id).intersect(chains.table.dom()).contains(id) <==> owns(
            chains,
            owner,
            context_id,
            id,
        ),
{
    assert(chains.listed(context_id).contains(id) <==> owns(chains, owner, context_id, id));
}

/// A swap chain that was handed out to be destroyed, and what became of that.
pub type Destruction<C, E> = (C, Result<(), Error<E>>);

/// Whether `destructions` are the swap chains that come out of a collection one by one, for the
/// ids in `doomed`, each with what became of it, until the work ends with `result`. `last` is what
/// became of the swap chain before them.
pub open spec fn dooms_all<SwapChainID, C, E>(
    chains: ChainsState<SwapChainID, C>,
    doomed: Seq<SwapChainID>,
    last: Result<(), Error<E>>,
    destructions: Seq<Destruction<C, E>>,
    after: ChainsState<SwapChainID, C>,
    result: Result<(), Error<E>>,
) -> bool
    decreases destructions.len(),
{
    exists|
        next: Result<Option<C>, Error<E>>,
        following: ChainsState<SwapChainID, C>,
        rest: Seq<SwapChainID>,
    |
        {
            &&& #[trigger] chains.dooms_after(doomed, last, next, following, rest)
            &&& match next {
                Ok(Some(chain)) => {
                    &&& destructions.len() > 0
                    &&& destructions[0].0 == chain
                    &&& dooms_all(
                        following,
                        rest,
                        destructions[0].1,
                        destructions.skip(1),
                        after,
                        result,
                    )
                },
                Ok(None) => {
                    &&& destructions.len() == 0
                    &&& after == following
                    &&& result is Ok
                },
                Err(error) => {
                    &&& destructions.len() == 0
                    &&& after == following
                    &&& result == Err::<(), Error<E>>(error)
                },
            }
        }
}

/// Whether `destructions` are those of the swap chains of the ids in `order`, in that order and
/// each once, and these swap chains are all that is gone from `after`.
pub open spec fn taken_out<SwapChainID, C, E>(
    chains: ChainsState<SwapChainID, C>,
    order: Seq<SwapChainID>,
    destructions: Seq<Destruction<C, E>>,
    after: ChainsState<SwapChainID, C>,
) -> bool {
    &&& order.len() == destructions.len()
    &&& order.no_duplicates()
    &&& forall|i: int|
        0 <= i < order.len() ==> chains.chain(#[trigger] order[i]) == Some(destructions[i].0)
    &&& after.table == chains.table.remove_keys(order.to_set())
}

/// The work, from any swap chain on.
proof fn rest_comes_out<SwapChainID, C, E>(
    chains: ChainsState<SwapChainID, C>,
    doomed: Seq<SwapChainID>,
    last: Result<(), Error<E>>,
    destructions: Seq<Destruction<C, E>>,
    after: ChainsState<SwapChainID, C>,
    result: Result<(), Error<E>>,
) -> (order: Seq<SwapChainID>)
    requires
        dooms_all(chains, doomed, last, destructions, after, result),
    ensures
        after.ids == chains.ids,
        taken_out(chains, order, destructions, after),
        forall|id: SwapChainID| order.contains(id) ==> doomed.contains(id),
        result is Ok ==> forall|id: SwapChainID|
            doomed.contains(id) && chains.table.contains_key(id) ==> order.contains(id),
        last is Err ==> destructions.len() == 0 && result == last,
        last is Ok && destructions.len() == 0 ==> result is Ok,
        destructions.len() > 0 ==> {
            &&& last is Ok
            &&& result is Ok <==> destructions.last().1 is Ok
            &&& result is Err ==> result == destructions.last().1
        },
        forall|i: int| 0 <= i < destructions.len() - 1 ==> (#[trigger] destructions[i]).1 is Ok,
    decreases destructions.len(),
{
    let (next, following, rest) = choose|
        next: Result<Option<C>, Error<E>>,
        following: ChainsState<SwapChainID, C>,
        rest: Seq<SwapChainID>,
    |
        {
            &&& #[trigger] chains.dooms_after(doomed, last, next, following, rest)
            &&& match next {
                Ok(Some(chain)) => {
                    &&& destructions.len() > 0
                    &&& destructions[0].0 == chain
                    &&& dooms_all(
                        following,
                        rest,
                        destructions[0].1,
                        destructions.skip(1),
                        after,
                        result,
                    )
                },
                Ok(None) => {
                    &&& destructions.len() == 0
                    &&& after == following
                    &&& result is Ok
                },
                Err(error) => {
                    &&& destructions.len() == 0
                    &&& after == following
                    &&& result == Err::<(), Error<E>>(error)
                },
            }
        };
    if let Ok(Some(chain)) = next {
        let tail = destructions.skip(1);
        let later = rest_comes_out(following, rest, destructions[0].1, tail, after, result);
        let id = doomed[rest.len() as int];
        let order = seq![id] + later;
        assert(!later.contains(id)) by {
            if later.contains(id) {
                let i = later.index_of(id);
                assert(following.chain(later[i]) == Some(tail[i].0));
            }
        }
        assert forall|other: SwapChainID| order.contains(other) <==> (other == id
            || later.contains(other)) by {
            assert(order[0] == id);
            if later.contains(other) {
                let i = later.index_of(other);
                assert(order[i + 1] == other);
            }
            if order.contains(other) {
                let i = order.index_of(other);
                if i > 0 {
                    assert(later[i - 1] == other);
                }
            }
        }
        assert forall|other: SwapChainID| rest.contains(other) implies doomed.contains(other) by {
            let i = rest.index_of(other);
            assert(doomed[i] == other);
        }
        assert forall|other: SwapChainID|
            chains.table.contains_key(other) && other != id && doomed.contains(
                other,
            ) implies rest.contains(other) by {
            let i = doomed.index_of(other);
            assert(doomed[i] == other);
            assert(rest[i] == other);
        }
        assert forall|i: int| 0 <= i < order.len() implies chains.chain(#[trigger] order[i])
            == Some(destructions[i].0) by {
            if i > 0 {
                assert(following.chain(later[i - 1]) == Some(tail[i - 1].0));
            }
        }
        assert forall|i: int, j: int|
            0 <= i < order.len() && 0 <= j < order.len() && i != j implies order[i] != order[j] by {
            if i == 0 {
                assert(later.contains(later[j - 1]));
            } else if j == 0 {
                assert(later.contains(later[i - 1]));
            }
        }
        assert(after.table =~= chains.table.remove_keys(order.to_set()));
        assert forall|i: int| 0 <= i < destructions.len() - 1 implies (
        #[trigger] destructions[i]).1 is Ok by {
            if i > 0 {
                assert(tail[i - 1] == destructions[i]);
            }
        }
        if tail.len() > 0 {
            assert(tail.last() == destructions.last());
        }
        order
    } else {
        let order = Seq::<SwapChainID>::empty();
        assert(after.table =~= chains.table.remove_keys(order.to_set()));
        assert forall|id: SwapChainID| next is Ok && doomed.contains(
            id,
        ) implies !chains.table.contains_key(id) by {
            let i = doomed.index_of(id);
            assert(doomed[i] == id);
        }
        order
    }
}

/// Destroying all swap chains of a producer context hands them out one by one, each once, and
/// stops at the first that cannot be destroyed; its error is the result, and if there is none, the
/// result is `Ok`. The swap chains that were handed out are gone, that one too; the others stay in
/// the table. The producer context has no list any more, whatever became of it.
pub proof fn the_first_failure_ends_the_work<SwapChainID, C, E>(
    chains: ChainsState<SwapChainID, C>,
    context_id: ContextID,
    doomed: Seq<SwapChainID>,
    destructions: Seq<Destruction<C, E>>,
    after: ChainsState<SwapChainID, C>,
    result: Result<(), Error<E>>,
)
    requires
        doomed.to_set() == chains.listed(context_id),
        dooms_all(chains.with_no_list(context_id), doomed, Ok(()), destructions, after, result),
    ensures
        after.ids == chains.ids.remove(context_id),
        after.listed(context_id) == Set::<SwapChainID>::empty(),
        exists|order: Seq<SwapChainID>|
            {
                &&& #[trigger] taken_out(chains, order, destructions, after)
                &&& order.to_set().subset_of(chains.listed(context_id))
            },
        forall|i: int| 0 <= i < destructions.len() - 1 ==> (#[trigger] destructions[i]).1 is Ok,
        result is Err <==> destructions.len() > 0 && destructions.last().1 is Err,
        result is Err ==> result == destructions.last().1,
{
    let bare = chains.with_no_list(context_id);
    let order = rest_comes_out(bare, doomed, Ok(()), destructions, after, result);
    assert forall|i: int| 0 <= i < order.len() implies chains.chain(#[trigger] order[i]) == Some(
        destructions[i].0,
    ) by {
        assert(bare.chain(order[i]) == Some(destructions[i].0));
    }
    assert(taken_out(chains, order, destructions, after));
    assert forall|id: SwapChainID| order.to_set().contains(id) implies chains.listed(
        context_id,
    ).contains(id) by {
        assert(order.contains(id));
        assert(doomed.to_set().contains(id));
    }
}

/// When a producer context has destroyed all its swap chains, all that it had listed are gone and
/// no others; each was handed out once, to be destroyed. The lists still tell the truth.
pub proof fn destroying_all_leaves_the_others<SwapChainID, C, E>(
    chains: ChainsState<SwapChainID, C>,
    owner: spec_fn(C) -> ContextID,
    context_id: ContextID,
    doomed: Seq<SwapChainID>,
    destructions: Seq<Destruction<C, E>>,
    after: ChainsState<SwapChainID, C>,
)
    requires
        doomed.to_set() == chains.listed(context_id),
        dooms_all(chains.with_no_list(context_id), doomed, Ok(()), destructions, after, Ok(())),
    ensures
        after.ids == chains.ids.remove(context_id),
        after.table == chains.table.remove_keys(chains.listed(context_id)),
        exists|order: Seq<SwapChainID>|
            {
                &&& #[trigger] taken_out(chains, order, destructions, after)
                &&& order.to_set() == chains.listed(context_id).intersect(chains.table.dom())
            },
        tidy(chains, owner) ==> tidy(after, owner) && forall|id: SwapChainID|
            !owns(after, owner, context_id, id),
{
    let bare = chains.with_no_list(context_id);
    let order = rest_comes_out(bare, doomed, Ok(()), destructions, after, Ok(()));
    assert forall|i: int| 0 <= i < order.len() implies chains.chain(#[trigger] order[i]) == Some(
        destructions[i].0,
    ) by {
        assert(bare.chain(order[i]) == Some(destructions[i].0));
    }
    assert forall|id: SwapChainID| order.contains(id) <==> chains.listed(context_id).contains(id)
        && chains.table.contains_key(id) by {
        assert(doomed.to_set().contains(id) <==> doomed.contains(id));
        if order.contains(id) {
            let i = order.index_of(id);
            assert(bare.chain(order[i]) == Some(destructions[i].0));
        }
    }
    assert(order.to_set() =~= chains.listed(context_id).intersect(chains.table.dom()));
    assert(taken_out(chains, order, destructions, after));
    assert(after.table =~= chains.table.remove_keys(chains.listed(context_id)));
    if tidy(chains, owner) {
        assert forall|c: ContextID, other: SwapChainID| #[trigger]
            after.listed(c).contains(other) <==> owns(after, owner, c, other) by {
            assert(chains.listed(c).contains(other) <==> owns(chains, owner, c, other));
            assert(chains.listed(context_id).contains(other) <==> owns(
                chains,
                owner,
                context_id,
                other,
            ));
        }
        assert forall|id: SwapChainID| !owns(after, owner, context_id, id) by {
            assert(after.listed(context_id).contains(id) <==> owns(after, owner, context_id, id));
        }
    }
}

} // verus!
