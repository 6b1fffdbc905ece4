//! Where the surfaces of a swap chain go.

use vstd::multiset::Multiset;
use vstd::prelude::*;

use crate::chain::{ChainState, Stage};
use crate::device::{Reply, Request, Step};
use crate::dialogue::{first_turn, leads_to, Exchange, Operation, SurfmanChain};
use crate::provider::{
    is_first_of_size, swap_removed, Provision, SurfaceProvider, SurfmanPool, SurfmanProvider,
};
use crate::surface::{ContextID, Size2D, Surface};

verus! {

/// The surface that `surface` may be.
pub open spec fn at_most_one<H>(surface: Option<Surface<H>>) -> Multiset<Surface<H>> {
    match surface {
        Some(surface) => Multiset::singleton(surface),
        None => Multiset::empty(),
    }
}

/// The surfaces that a running operation has in its hands.
pub open spec fn in_hand<H>(stage: Stage<H>) -> Multiset<Surface<H>> {
    match stage {
        Stage::SwapUnbinding { back } => Multiset::singleton(back),
        Stage::SwapBinding { front } => Multiset::singleton(front),
        Stage::ResizeUnbinding { size, back } => Multiset::singleton(back),
        Stage::ResizeBinding { size, replaced } => Multiset::singleton(replaced),
        Stage::AttachUnbinding { surface } => Multiset::singleton(surface),
        Stage::AttachBinding { detached } => Multiset::singleton(detached),
        Stage::ClearUnbinding { state, back } => Multiset::singleton(back),
        Stage::ClearBinding { state, previous } => at_most_one(previous),
        Stage::ClearLocating { state, previous } => at_most_one(previous),
        Stage::Clearing { state, previous } => at_most_one(previous),
        Stage::ReattachUnbinding { state, reattach } => Multiset::singleton(reattach),
        Stage::ReattachBinding { state, back } => Multiset::singleton(back),
        _ => Multiset::empty(),
    }
}

/// The surfaces of a pool.
pub open spec fn pooled<H>(pool: SurfmanPool<H>) -> Multiset<Surface<H>> {
    at_most_one(pool.pending).add(pool.recycled.to_multiset())
}

/// Every surface that a swap chain holds.
pub open spec fn holdings<H, E>(state: SurfmanChain<H, E>) -> Multiset<Surface<H>> {
    at_most_one(state.unattached).add(in_hand(state.stage)).add(
        state.doomed.to_multiset(),
    ).add(pooled(state.provider@))
}

/// The surface that goes to the device with a request.
pub open spec fn given<H>(request: Request<H>) -> Multiset<Surface<H>> {
    match request {
        Request::BindSurface { surface } => Multiset::singleton(surface),
        Request::DestroySurface { surface } => Multiset::singleton(surface),
        _ => Multiset::empty(),
    }
}

/// The surface that goes to the device with a step.
pub open spec fn given_at<H, E>(step: Step<H, E>) -> Multiset<Surface<H>> {
    match step {
        Step::Ask(request) => given(request),
        Step::Done(_) => Multiset::empty(),
    }
}

/// The surface that comes from the device with an answer.
pub open spec fn received<H, E>(reply: Reply<H, E>) -> Multiset<Surface<H>> {
    match reply {
        Reply::Created(Ok(surface)) => Multiset::singleton(surface),
        Reply::Unbound(Ok(surface)) => at_most_one(surface),
        _ => Multiset::empty(),
    }
}

/// Every surface that went to the device in a dialogue.
pub open spec fn all_given<H, E>(dialogue: Seq<Exchange<H, E>>) -> Multiset<Surface<H>>
    decreases dialogue.len(),
{
    if dialogue.len() == 0 {
        Multiset::empty()
    } else {
        given(dialogue[0].0).add(all_given(dialogue.drop_first()))
    }
}

/// Every surface that came from the device in a dialogue.
pub open spec fn all_received<H, E>(dialogue: Seq<Exchange<H, E>>) -> Multiset<Surface<H>>
    decreases dialogue.len(),
{
    if dialogue.len() == 0 {
        Multiset::empty()
    } else {
        received(dialogue[0].1).add(all_received(dialogue.drop_first()))
    }
}

/// What holds while an operation is under way: once a swap has started, the old front buffer has
/// left its place, and once a clear has taken the back buffer, its place is free.
pub open spec fn in_order<H, E>(state: SurfmanChain<H, E>) -> bool {
    match state.stage {
        Stage::SwapCreating
        | Stage::SwapUnbinding { .. }
        | Stage::SwapBinding { .. } => state.provider@.pending is None,
        Stage::ClearUnbinding { .. }
        | Stage::ClearBinding { .. }
        | Stage::ClearLocating { .. }
        | Stage::Clearing { .. }
        | Stage::ReattachUnbinding { .. }
        | Stage::ReattachBinding { .. } => state.unattached is None,
        _ => true,
    }
}

proof fn swap_removed_multiset<H>(surfaces: Seq<Surface<H>>, index: int)
    requires
        0 <= index < surfaces.len(),
    ensures
        surfaces.to_multiset() == swap_removed(surfaces, index).to_multiset().insert(
            surfaces[index],
        ),
{
    broadcast use vstd::multiset::group_multiset_axioms;
    broadcast use vstd::multiset::group_multiset_properties;

    let last = surfaces.last();
    let updated = surfaces.update(index, last);
    let rest = updated.drop_last();
    vstd::seq_lib::to_multiset_update(surfaces, index, last);
    assert(updated == rest.push(last));
    vstd::seq_lib::to_multiset_build(rest, last);
    vstd::seq_lib::to_multiset_contains(surfaces, surfaces[index]);
    let before = surfaces.to_multiset();
    assert(rest.to_multiset().insert(last) == before.insert(last).remove(surfaces[index]));
    assert forall|x: Surface<H>|
        before.count(x) == rest.to_multiset().insert(surfaces[index]).count(x) by {
        assert(rest.to_multiset().insert(last).count(x) == before.insert(last).remove(
            surfaces[index],
        ).count(x));
    }
    assert(before =~= rest.to_multiset().insert(surfaces[index]));
}

pub(crate) proof fn provided_multiset<H, E>(
    pool: SurfmanPool<H>,
    size: Size2D,
    after: SurfmanPool<H>,
    provision: Provision<H, E>,
)
    requires
        pool.provides(size, after, provision),
    ensures
        pooled(pool) == match provision {
            Provision::Recycled { surface } => pooled(after).insert(surface),
            _ => pooled(after),
        },
        after.pending == pool.pending,
        after.access == pool.access,
{
    broadcast use vstd::multiset::group_multiset_axioms;

    if let Provision::Recycled { surface } = provision {
        let index = choose|index: int|
            {
                &&& #[trigger] is_first_of_size(pool.recycled, size, index)
                &&& surface == pool.recycled[index]
                &&& after == SurfmanPool {
                    recycled: swap_removed(pool.recycled, index),
                    ..pool
                }
            };
        swap_removed_multiset(pool.recycled, index);
        assert(pooled(pool) =~= pooled(after).insert(surface));
    }
}

proof fn front_recycled_multiset<H>(pool: SurfmanPool<H>)
    ensures
        pooled(pool.front_recycled()) == pooled(pool),
        pool.front_recycled().pending is None,
{
    broadcast use vstd::multiset::group_multiset_axioms;

    if let Some(surface) = pool.pending {
        vstd::seq_lib::to_multiset_build(pool.recycled, surface);
    }
    assert(pooled(pool.front_recycled()) =~= pooled(pool));
}

proof fn all_surfaces_multiset<H>(pool: SurfmanPool<H>)
    ensures
        pool.all_surfaces().to_multiset() == pooled(pool),
        pooled(pool.emptied()) == Multiset::<Surface<H>>::empty(),
{
    broadcast use vstd::multiset::group_multiset_axioms;

    empty_multiset::<H>();
    if let Some(surface) = pool.pending {
        vstd::seq_lib::lemma_multiset_commutative(seq![surface], pool.recycled);
        assert(seq![surface] == Seq::<Surface<H>>::empty().push(surface));
        vstd::seq_lib::to_multiset_build(Seq::<Surface<H>>::empty(), surface);
    }
    assert(pool.all_surfaces().to_multiset() =~= pooled(pool));
    assert(pooled(pool.emptied()) =~= Multiset::<Surface<H>>::empty());
}

proof fn empty_multiset<H>()
    ensures
        Seq::<Surface<H>>::empty().to_multiset() == Multiset::<Surface<H>>::empty(),
{
    broadcast use vstd::multiset::group_multiset_axioms;
    broadcast use vstd::seq_lib::group_to_multiset_ensures;

    assert(Seq::<Surface<H>>::empty().to_multiset().len() == 0);
    assert(Seq::<Surface<H>>::empty().to_multiset() =~= Multiset::<Surface<H>>::empty());
}

/// Going on with the surfaces to destroy loses and makes no surface.
proof fn destroying_keeps_holdings<H, E>(
    state: SurfmanChain<H, E>,
    after: SurfmanChain<H, E>,
    step: Step<H, E>,
)
    requires
        state.destroys_next(after, step),
        in_hand(state.stage) == Multiset::<Surface<H>>::empty(),
    ensures
        holdings(state) == holdings(after).add(given_at(step)),
{
    broadcast use vstd::multiset::group_multiset_axioms;

    if state.doomed.len() > 0 {
        let rest = state.doomed.drop_first();
        assert(rest == state.doomed.remove(0));
        vstd::seq_lib::to_multiset_remove(state.doomed, 0);
        vstd::seq_lib::to_multiset_contains(state.doomed, state.doomed[0]);
        assert(state.doomed.to_multiset() =~= rest.to_multiset().insert(state.doomed[0]));
    }
    assert(holdings(state) =~= holdings(after).add(given_at(step)));
}

proof fn presenting_keeps_holdings<H, E>(
    state: SurfmanChain<H, E>,
    front: Surface<H>,
    after: SurfmanChain<H, E>,
    step: Step<H, E>,
)
    requires
        state.presents(front, after, step),
        state.doomed.len() == 0,
        state.provider@.pending is None,
    ensures
        holdings(state.at(Stage::Idle)).insert(front) == holdings(after).add(given_at(step)),
{
    broadcast use vstd::multiset::group_multiset_axioms;

    empty_multiset::<H>();
    let released = state.provider@.recycled;
    let middle = ChainState {
        provider: after.provider,
        doomed: released,
        stage: Stage::Idle,
        ..state
    };
    assert(middle.destroys_next(after, step));
    destroying_keeps_holdings(middle, after, step);
    assert(state.doomed =~= Seq::empty());
    assert(holdings(state.at(Stage::Idle)).insert(front) =~= holdings(middle));
}

proof fn exchanging_keeps_holdings<H, E>(
    state: SurfmanChain<H, E>,
    back: Surface<H>,
    after: SurfmanChain<H, E>,
    step: Step<H, E>,
)
    requires
        state.exchanges(back, after, step),
        state.doomed.len() == 0,
        state.provider@.pending is None,
    ensures
        holdings(state.at(Stage::Idle)).insert(back) == holdings(after).add(given_at(step)),
        after.wf(),
        in_order(after),
{
    broadcast use vstd::multiset::group_multiset_axioms;

    if let Some(front) = state.unattached {
        let replaced = ChainState { unattached: Some(back), ..state };
        presenting_keeps_holdings(replaced, front, after, step);
        assert(holdings(state.at(Stage::Idle)).insert(back) =~= holdings(
            replaced.at(Stage::Idle),
        ).insert(front));
    } else {
        assert(holdings(state.at(Stage::Idle)).insert(back) =~= holdings(after).add(
            given_at(step),
        ));
    }
}

proof fn releasing_keeps_holdings<H, E>(
    state: SurfmanChain<H, E>,
    after: SurfmanChain<H, E>,
    step: Step<H, E>,
)
    requires
        state.releases(after, step),
        state.doomed.len() == 0,
        in_hand(state.stage) == Multiset::<Surface<H>>::empty(),
    ensures
        holdings(state) == holdings(after).add(given_at(step)),
        after.wf(),
        in_order(after),
{
    broadcast use vstd::multiset::group_multiset_axioms;

    empty_multiset::<H>();
    all_surfaces_multiset(state.provider@);
    let middle = ChainState {
        provider: after.provider,
        doomed: state.provider@.all_surfaces(),
        ..state
    };
    assert(middle.destroys_next(after, step));
    destroying_keeps_holdings(middle, after, step);
    assert(state.doomed =~= Seq::empty());
    assert(holdings(state) =~= holdings(middle));
}

proof fn resizing_keeps_holdings<H, E>(
    state: SurfmanChain<H, E>,
    size: Size2D,
    back: Surface<H>,
    after: SurfmanChain<H, E>,
    step: Step<H, E>,
)
    requires
        state.resizes(size, back, after, step),
        state.doomed.len() == 0,
    ensures
        holdings(state.at(Stage::Idle)).insert(back) == holdings(after).add(given_at(step)),
        after.wf(),
        in_order(after),
{
    broadcast use vstd::multiset::group_multiset_axioms;

    assert(holdings(state.at(Stage::Idle)).insert(back) =~= holdings(after).add(given_at(step)));
}

/// A turn on an answer that is no refusal loses and makes no surface.
proof fn turn_keeps_holdings<H, E>(
    state: SurfmanChain<H, E>,
    reply: Reply<H, E>,
    after: SurfmanChain<H, E>,
    step: Step<H, E>,
)
    requires
        state.wf(),
        in_order(state),
        state.stage.awaits(reply),
        state.resumes(reply, after, step),
        !reply.refuses(),
    ensures
        holdings(state).add(received(reply)) == holdings(after).add(given_at(step)),
        after.wf(),
        in_order(after),
{
    broadcast use vstd::multiset::group_multiset_axioms;

    match state.stage {
        Stage::SwapCreating => {
            let back = reply->Created_0->Ok_0;
            exchanging_keeps_holdings(state, back, after, step);
            assert(holdings(state).add(received(reply)) =~= holdings(
                state.at(Stage::Idle),
            ).insert(back));
        },
        Stage::SwapBinding { front } => {
            presenting_keeps_holdings(state, front, after, step);
            assert(holdings(state).add(received(reply)) =~= holdings(
                state.at(Stage::Idle),
            ).insert(front));
        },
        Stage::Destroying => {
            destroying_keeps_holdings(state, after, step);
        },
        Stage::ResizeCreating { size } => {
            let back = reply->Created_0->Ok_0;
            resizing_keeps_holdings(state, size, back, after, step);
            assert(holdings(state).add(received(reply)) =~= holdings(
                state.at(Stage::Idle),
            ).insert(back));
        },
        Stage::DestroyingBack => {
            releasing_keeps_holdings(state, after, step);
        },
        _ => {},
    }
    assert(holdings(state).add(received(reply)) =~= holdings(after).add(given_at(step)));
}

/// The rest of an operation that succeeds loses and makes no surface.
proof fn rest_keeps_holdings<H, E>(
    state: SurfmanChain<H, E>,
    step: Step<H, E>,
    dialogue: Seq<Exchange<H, E>>,
    end: SurfmanChain<H, E>,
)
    requires
        state.wf(),
        in_order(state),
        leads_to(state, step, dialogue, end, Ok(())),
    ensures
        holdings(state).add(given_at(step)).add(all_received(dialogue)) == holdings(end).add(
            all_given(dialogue),
        ),
    decreases dialogue.len(),
{
    broadcast use vstd::multiset::group_multiset_axioms;

    if dialogue.len() > 0 {
        let reply = dialogue[0].1;
        let rest = dialogue.drop_first();
        let (next, next_step) = first_turn(state, step, dialogue, end);
        turn_keeps_holdings(state, reply, next, next_step);
        rest_keeps_holdings(next, next_step, rest, end);
        let left = holdings(state).add(received(reply));
        assert(left == holdings(next).add(given_at(next_step)));
        assert(left.add(all_received(rest)) == holdings(end).add(all_given(rest)));
        assert(holdings(state).add(given_at(step)).add(all_received(dialogue)) =~= left.add(
            all_received(rest),
        ).add(given_at(step)));
        assert(holdings(end).add(all_given(dialogue)) =~= holdings(end).add(all_given(rest)).add(
            given_at(step),
        ));
    } else {
        assert(holdings(state).add(given_at(step)).add(all_received(dialogue)) =~= holdings(
            end,
        ).add(all_given(dialogue)));
    }
}

proof fn start_keeps_holdings<H, E>(
    operation: Operation,
    state: SurfmanChain<H, E>,
    context_id: ContextID,
    after: SurfmanChain<H, E>,
    step: Step<H, E>,
)
    requires
        state.at_rest(),
        operation.starts(state, context_id, after, step),
    ensures
        holdings(state) == holdings(after).add(given_at(step)),
        after.wf(),
        in_order(after),
{
    broadcast use vstd::multiset::group_multiset_axioms;

    if context_id == state.context_id {
        match operation {
            Operation::SwapBuffers => {
                let (recycled, provider, provision) = choose|
                    recycled: SurfmanProvider<H, E>,
                    provider: SurfmanProvider<H, E>,
                    provision: Provision<H, E>,
                |
                    {
                        &&& #[trigger] SurfmanProvider::front_buffer_recycled(
                            state.provider,
                            state.context_id,
                            recycled,
                        )
                        &&& #[trigger] SurfmanProvider::surface_provided(
                            recycled,
                            state.context_id,
                            state.size,
                            provider,
                            provision,
                        )
                        &&& match provision {
                            Provision::Recycled { surface } => (ChainState {
                                provider,
                                ..state
                            }).exchanges(surface, after, step),
                            Provision::Create { access, size } => {
                                &&& after == ChainState {
                                    provider,
                                    stage: Stage::SwapCreating,
                                    ..state
                                }
                                &&& step == Step::<H, E>::Ask(
                                    Request::CreateSurface { access, size },
                                )
                            },
                            Provision::Refused { error } => false,
                        }
                    };
                front_recycled_multiset(state.provider@);
                provided_multiset(recycled@, state.size, provider@, provision);
                let fed = ChainState { provider, ..state };
                if let Provision::Recycled { surface } = provision {
                    exchanging_keeps_holdings(fed, surface, after, step);
                    assert(fed.at(Stage::Idle) == fed);
                    assert(holdings(state) =~= holdings(fed).insert(surface));
                } else {
                    assert(holdings(state) =~= holdings(after).add(given_at(step)));
                }
            },
            Operation::Resize { size } => {
                assert(holdings(state) =~= holdings(after).add(given_at(step)));
            },
            Operation::ClearSurface => {
                assert(holdings(state) =~= holdings(after).add(given_at(step)));
            },
            Operation::Destroy => {
                if state.unattached is None {
                    releasing_keeps_holdings(state, after, step);
                }
                assert(holdings(state) =~= holdings(after).add(given_at(step)));
            },
        }
    } else {
        assert(holdings(state) =~= holdings(after).add(given_at(step)));
    }
}

/// No operation that succeeds loses a surface or makes one up: what the swap chain held and what
/// came from the device is what the swap chain holds afterwards and what went to the device, to
/// be bound to the context or destroyed.
pub proof fn surfaces_are_conserved<H, E>(
    operation: Operation,
    state: SurfmanChain<H, E>,
    context_id: ContextID,
    dialogue: Seq<Exchange<H, E>>,
    end: SurfmanChain<H, E>,
)
    requires
        state.at_rest(),
        operation.runs(state, context_id, dialogue, end, Ok(())),
    ensures
        holdings(state).add(all_received(dialogue)) == holdings(end).add(all_given(dialogue)),
{
    let (started, step) = choose|started: SurfmanChain<H, E>, step: Step<H, E>|
        {
            &&& #[trigger] operation.starts(state, context_id, started, step)
            &&& leads_to(started, step, dialogue, end, Ok(()))
        };
    start_keeps_holdings(operation, state, context_id, started, step);
    rest_keeps_holdings(started, step, dialogue, end);
}

} // verus!
