//! What the operations on a swap chain come to.

use vstd::prelude::*;

use crate::chain::{ChainState, Stage};
use crate::device::{Reply, Request, Step};
use crate::dialogue::{
    attachment_leads_to, attachment_runs, back_buffer, bound_after, bound_next, first_turn,
    leads_to, truthful, Exchange, Operation, SurfmanChain,
};
use crate::provider::{Provision, SurfaceProvider, SurfmanPool, SurfmanProvider};
use crate::surface::{ContextID, Error, Size2D, Surface};

verus! {

/// An operation comes to rest, whatever the device answers: when it is done, another one may
/// start.
pub proof fn operations_come_to_rest<H, P: SurfaceProvider<H>>(
    operation: Operation,
    state: ChainState<H, P>,
    context_id: ContextID,
    dialogue: Seq<Exchange<H, P::Error>>,
    end: ChainState<H, P>,
    result: Result<(), Error<P::Error>>,
)
    requires
        state.at_rest(),
        operation.runs(state, context_id, dialogue, end, result),
    ensures
        end.at_rest(),
{
    let (started, step) = choose|started: ChainState<H, P>, step: Step<H, P::Error>|
        {
            &&& #[trigger] operation.starts(state, context_id, started, step)
            &&& leads_to(started, step, dialogue, end, result)
        };
    assert(started.wf());
    assert(step is Done ==> started.at_rest());
    rest_comes_to_rest(started, step, dialogue, end, result);
}

proof fn rest_comes_to_rest<H, P: SurfaceProvider<H>>(
    state: ChainState<H, P>,
    step: Step<H, P::Error>,
    dialogue: Seq<Exchange<H, P::Error>>,
    end: ChainState<H, P>,
    result: Result<(), Error<P::Error>>,
)
    requires
        state.wf(),
        step is Done ==> state.at_rest(),
        leads_to(state, step, dialogue, end, result),
    ensures
        end.at_rest(),
    decreases dialogue.len(),
{
    if dialogue.len() > 0 {
        let (next, next_step) = choose|next: ChainState<H, P>, next_step: Step<H, P::Error>|
            {
                &&& #[trigger] state.resumes(dialogue[0].1, next, next_step)
                &&& leads_to(next, next_step, dialogue.drop_first(), end, result)
            };
        assert(next.wf());
        assert(next_step is Done ==> next.at_rest());
        rest_comes_to_rest(next, next_step, dialogue.drop_first(), end, result);
    }
}

/// Whether the last exchanges of `dialogue` have the device destroy `surfaces`, first to last.
pub open spec fn ends_by_destroying<H, E>(
    dialogue: Seq<Exchange<H, E>>,
    surfaces: Seq<Surface<H>>,
) -> bool {
    &&& dialogue.len() >= surfaces.len()
    &&& forall|i: int|
        0 <= i < surfaces.len() ==> dialogue[dialogue.len() - surfaces.len() + i].0
            == Request::<H>::DestroySurface { surface: #[trigger] surfaces[i] }
}

/// What is left of an operation that goes on with the surfaces to destroy.
proof fn destroying_ends<H, P: SurfaceProvider<H>>(
    state: ChainState<H, P>,
    after: ChainState<H, P>,
    step: Step<H, P::Error>,
    bound: Option<Surface<H>>,
    dialogue: Seq<Exchange<H, P::Error>>,
    end: ChainState<H, P>,
)
    requires
        state.destroys_next(after, step),
        leads_to(after, step, dialogue, end, Ok(())),
    ensures
        end == state.stopped(),
        dialogue.len() == state.doomed.len(),
        ends_by_destroying(dialogue, state.doomed),
        bound_after(bound, dialogue) == bound,
    decreases state.doomed.len(),
{
    if state.doomed.len() == 0 {
        assert(dialogue.len() == 0);
        assert(end == state.stopped());
    } else {
        let (next, next_step) = first_turn(after, step, dialogue, end);
        let rest = dialogue.drop_first();
        destroying_ends(after, next, next_step, bound, rest, end);
        assert(end == state.stopped());
        assert forall|i: int| 0 <= i < state.doomed.len() implies dialogue[dialogue.len()
            - state.doomed.len() + i].0 == (Request::<H>::DestroySurface {
            surface: #[trigger] state.doomed[i],
        }) by {
            if i > 0 {
                assert(after.doomed[i - 1] == state.doomed[i]);
                assert(rest[i - 1] == dialogue[i]);
            }
        }
    }
}

proof fn destroying_still_ends<H, E>(dialogue: Seq<Exchange<H, E>>, surfaces: Seq<Surface<H>>)
    requires
        dialogue.len() > 0,
        ends_by_destroying(dialogue.drop_first(), surfaces),
    ensures
        ends_by_destroying(dialogue, surfaces),
{
    let rest = dialogue.drop_first();
    assert forall|i: int| 0 <= i < surfaces.len() implies dialogue[dialogue.len() - surfaces.len()
        + i].0 == (Request::<H>::DestroySurface { surface: #[trigger] surfaces[i] }) by {
        assert(rest[rest.len() - surfaces.len() + i] == dialogue[dialogue.len() - surfaces.len()
            + i]);
    }
}

/// What is left of a swap that makes `front` the front buffer.
proof fn presenting_ends<H, E>(
    state: SurfmanChain<H, E>,
    front: Surface<H>,
    after: SurfmanChain<H, E>,
    step: Step<H, E>,
    bound: Option<Surface<H>>,
    dialogue: Seq<Exchange<H, E>>,
    end: SurfmanChain<H, E>,
)
    requires
        state.presents(front, after, step),
        leads_to(after, step, dialogue, end, Ok(())),
    ensures
        end == (ChainState { provider: end.provider, ..state.stopped() }),
        end.provider@ == (SurfmanPool {
            pending: Some(front),
            recycled: seq![],
            ..state.provider@
        }),
        ends_by_destroying(dialogue, state.provider@.recycled),
        bound_after(bound, dialogue) == bound,
{
    let released = state.provider@.recycled;
    let middle = ChainState { provider: after.provider, doomed: released, ..state };
    assert(middle.destroys_next(after, step));
    destroying_ends(middle, after, step, bound, dialogue, end);
}

/// What is left of a swap that has its new back buffer.
proof fn exchanging_ends<H, E>(
    state: SurfmanChain<H, E>,
    back: Surface<H>,
    after: SurfmanChain<H, E>,
    step: Step<H, E>,
    bound: Option<Surface<H>>,
    dialogue: Seq<Exchange<H, E>>,
    end: SurfmanChain<H, E>,
)
    requires
        state.exchanges(back, after, step),
        leads_to(after, step, dialogue, end, Ok(())),
        truthful(bound, dialogue),
    ensures
        back_buffer(state, bound) is Some,
        end.provider@ == (SurfmanPool {
            pending: back_buffer(state, bound),
            recycled: seq![],
            ..state.provider@
        }),
        end == (ChainState {
            provider: end.provider,
            unattached: if state.unattached is Some {
                Some(back)
            } else {
                None
            },
            ..state.stopped()
        }),
        bound_after(bound, dialogue) == if state.unattached is Some {
            bound
        } else {
            Some(back)
        },
        ends_by_destroying(dialogue, state.provider@.recycled),
{
    if let Some(front) = state.unattached {
        let replaced = ChainState { unattached: Some(back), ..state };
        presenting_ends(replaced, front, after, step, bound, dialogue, end);
    } else {
        let (unbound, unbound_step) = first_turn(after, step, dialogue, end);
        let rest = dialogue.drop_first();
        let none = bound_next(bound, dialogue[0]);
        let front = bound->0;
        let (presented, presented_step) = first_turn(unbound, unbound_step, rest, end);
        let tail = rest.drop_first();
        presenting_ends(
            unbound,
            front,
            presented,
            presented_step,
            bound_next(none, rest[0]),
            tail,
            end,
        );
        destroying_still_ends(rest, state.provider@.recycled);
        destroying_still_ends(dialogue, state.provider@.recycled);
        assert(bound_after(none, rest) == bound_after(bound_next(none, rest[0]), tail));
    }
}

/// Whether a swap in the state `state` got its new back buffer `back` as it should: the first
/// displayed surface of the right size, or a surface that the device created. The displayed
/// surfaces that are left over are destroyed at the end.
pub open spec fn back_buffer_fetched<H, E>(
    state: SurfmanChain<H, E>,
    dialogue: Seq<Exchange<H, E>>,
    back: Surface<H>,
) -> bool {
    exists|pool: SurfmanPool<H>, provision: Provision<H, E>|
        {
            &&& #[trigger] state.provider@.front_recycled().provides(state.size, pool, provision)
            &&& match provision {
                Provision::Recycled { surface } => back == surface,
                Provision::Create { access, size } => {
                    &&& dialogue.len() > 0
                    &&& dialogue[0] == (
                        Request::<H>::CreateSurface { access, size },
                        Reply::<H, E>::Created(Ok(back)),
                    )
                },
                Provision::Refused { error } => false,
            }
            &&& ends_by_destroying(dialogue, pool.recycled)
        }
}

/// A swap that succeeds makes the back buffer the front buffer, which the next consumer takes,
/// and nothing else is left for consumers. The swap chain has a new back buffer of its size, in
/// the place of the old one: with the context if the swap chain is attached, in the swap chain
/// if it is not.
pub proof fn swap_presents_the_back_buffer<H, E>(
    state: SurfmanChain<H, E>,
    context_id: ContextID,
    bound: Option<Surface<H>>,
    dialogue: Seq<Exchange<H, E>>,
    end: SurfmanChain<H, E>,
)
    requires
        state.at_rest(),
        Operation::SwapBuffers.runs(state, context_id, dialogue, end, Ok(())),
        truthful(bound, dialogue),
    ensures
        ({
            let bound_end = bound_after(bound, dialogue);
            &&& context_id == state.context_id
            &&& back_buffer(state, bound) is Some
            &&& end.provider@.next_taken() == back_buffer(state, bound)
            &&& end.provider@.after_take() == state.provider@.emptied()
            &&& back_buffer(end, bound_end) is Some
            &&& back_buffer(end, bound_end)->0.size == state.size
            &&& back_buffer_fetched(state, dialogue, back_buffer(end, bound_end)->0)
            &&& end.unattached is Some <==> state.unattached is Some
            &&& state.unattached is Some ==> bound_end == bound
            &&& end == ChainState {
                provider: end.provider,
                unattached: end.unattached,
                ..state
            }
        }),
{
    let (started, step) = choose|started: SurfmanChain<H, E>, step: Step<H, E>|
        {
            &&& #[trigger] Operation::SwapBuffers.starts(state, context_id, started, step)
            &&& leads_to(started, step, dialogue, end, Ok(()))
        };
    let (recycled, provider, provision) = choose|
        recycled: SurfmanProvider<H, E>,
        provider: SurfmanProvider<H, E>,
        provision: Provision<H, E>,
    |
        {
            &&& #[trigger] SurfmanProvider::front_buffer_recycled(
                state.provider,
                state.context_id,
                recycled,
            )
            &&& #[trigger] SurfmanProvider::surface_provided(
                recycled,
                state.context_id,
                state.size,
                provider,
                provision,
            )
            &&& match provision {
                Provision::Recycled { surface } => (ChainState { provider, ..state }).exchanges(
                    surface,
                    started,
                    step,
                ),
                Provision::Create { access, size } => {
                    &&& started == ChainState { provider, stage: Stage::SwapCreating, ..state }
                    &&& step == Step::<H, E>::Ask(Request::CreateSurface { access, size })
                },
                Provision::Refused { error } => false,
            }
        };
    assert(state.doomed =~= seq![]);
    assert(state.provider@.front_recycled().provides(state.size, provider@, provision));
    match provision {
        Provision::Recycled { surface } => {
            let fed = ChainState { provider, ..state };
            exchanging_ends(fed, surface, started, step, bound, dialogue, end);
            assert(back_buffer_fetched(state, dialogue, surface));
        },
        Provision::Create { access, size } => {
            let (created, created_step) = first_turn(started, step, dialogue, end);
            let back = dialogue[0].1->Created_0->Ok_0;
            let rest = dialogue.drop_first();
            exchanging_ends(started, back, created, created_step, bound, rest, end);
            destroying_still_ends(dialogue, provider@.recycled);
            assert(back_buffer_fetched(state, dialogue, back));
        },
        Provision::Refused { error } => {},
    }
}

/// What is left of a resize that has its new back buffer.
proof fn resizing_ends<H, E>(
    state: SurfmanChain<H, E>,
    size: Size2D,
    back: Surface<H>,
    after: SurfmanChain<H, E>,
    step: Step<H, E>,
    bound: Option<Surface<H>>,
    dialogue: Seq<Exchange<H, E>>,
    end: SurfmanChain<H, E>,
)
    requires
        state.resizes(size, back, after, step),
        leads_to(after, step, dialogue, end, Ok(())),
        truthful(bound, dialogue),
    ensures
        back_buffer(state, bound) is Some,
        end == (ChainState {
            size,
            unattached: if state.unattached is Some {
                Some(back)
            } else {
                None
            },
            stage: Stage::Idle,
            ..state
        }),
        bound_after(bound, dialogue) == if state.unattached is Some {
            bound
        } else {
            Some(back)
        },
        dialogue.len() > 0,
        dialogue.last().0 == (Request::<H>::DestroySurface {
            surface: back_buffer(state, bound)->0,
        }),
{
    reveal_with_fuel(leads_to, 2);
    reveal_with_fuel(bound_after, 4);
    reveal_with_fuel(truthful, 4);
    let (first, first_step) = first_turn(after, step, dialogue, end);
    if state.unattached is None {
        let rest = dialogue.drop_first();
        let (second, second_step) = first_turn(first, first_step, rest, end);
        let tail = rest.drop_first();
        let (third, third_step) = first_turn(second, second_step, tail, end);
        assert(dialogue.last() == tail[0]);
    }
}

/// A resize that succeeds gives the swap chain a new back buffer of the new size, in the place
/// of the old one, and has the old one destroyed. The backend keeps its surfaces.
pub proof fn resize_replaces_the_back_buffer<H, E>(
    state: SurfmanChain<H, E>,
    context_id: ContextID,
    size: Size2D,
    bound: Option<Surface<H>>,
    dialogue: Seq<Exchange<H, E>>,
    end: SurfmanChain<H, E>,
)
    requires
        state.at_rest(),
        (Operation::Resize { size }).runs(state, context_id, dialogue, end, Ok(())),
        truthful(bound, dialogue),
    ensures
        ({
            let bound_end = bound_after(bound, dialogue);
            &&& context_id == state.context_id
            &&& size.width >= 1 && size.height >= 1
            &&& back_buffer(state, bound) is Some
            &&& back_buffer(end, bound_end) is Some
            &&& back_buffer(end, bound_end)->0.size == size
            &&& dialogue.len() >= 2
            &&& dialogue[0] == (
                Request::<H>::CreateSurface { access: state.provider@.access, size },
                Reply::<H, E>::Created(Ok(back_buffer(end, bound_end)->0)),
            )
            &&& dialogue.last().0 == Request::<H>::DestroySurface {
                surface: back_buffer(state, bound)->0,
            }
            &&& end.unattached is Some <==> state.unattached is Some
            &&& state.unattached is Some ==> bound_end == bound
            &&& end.provider@ == state.provider@
            &&& end == ChainState {
                provider: end.provider,
                size,
                unattached: end.unattached,
                ..state
            }
        }),
{
    let (started, step) = choose|started: SurfmanChain<H, E>, step: Step<H, E>|
        {
            &&& #[trigger] (Operation::Resize { size }).starts(state, context_id, started, step)
            &&& leads_to(started, step, dialogue, end, Ok(()))
        };
    let (created, created_step) = first_turn(started, step, dialogue, end);
    let back = dialogue[0].1->Created_0->Ok_0;
    let rest = dialogue.drop_first();
    resizing_ends(started, size, back, created, created_step, bound, rest, end);
    assert(dialogue.last() == rest.last());
}

/// Destroying a swap chain has every surface that it holds destroyed, the back buffer first (if
/// the swap chain is not attached), then the front buffer, then the displayed surfaces. Nothing
/// else is asked of the device, and no surface is left.
pub proof fn destroy_destroys_every_surface<H, E>(
    state: SurfmanChain<H, E>,
    context_id: ContextID,
    dialogue: Seq<Exchange<H, E>>,
    end: SurfmanChain<H, E>,
)
    requires
        state.at_rest(),
        Operation::Destroy.runs(state, context_id, dialogue, end, Ok(())),
    ensures
        ({
            let surfaces = match state.unattached {
                Some(surface) => seq![surface] + state.provider@.all_surfaces(),
                None => state.provider@.all_surfaces(),
            };
            &&& context_id == state.context_id
            &&& dialogue.len() == surfaces.len()
            &&& ends_by_destroying(dialogue, surfaces)
            &&& end.provider@ == state.provider@.emptied()
            &&& end == ChainState { provider: end.provider, unattached: None, ..state }
        }),
{
    let (started, step) = choose|started: SurfmanChain<H, E>, step: Step<H, E>|
        {
            &&& #[trigger] Operation::Destroy.starts(state, context_id, started, step)
            &&& leads_to(started, step, dialogue, end, Ok(()))
        };
    let released = state.provider@.all_surfaces();
    assert(state.doomed =~= seq![]);
    if let Some(surface) = state.unattached {
        let (destroyed, destroyed_step) = first_turn(started, step, dialogue, end);
        let rest = dialogue.drop_first();
        let middle = ChainState { provider: destroyed.provider, doomed: released, ..started };
        assert(middle.destroys_next(destroyed, destroyed_step));
        destroying_ends(middle, destroyed, destroyed_step, None, rest, end);
        let surfaces = seq![surface] + released;
        assert forall|i: int| 0 <= i < surfaces.len() implies dialogue[dialogue.len()
            - surfaces.len() + i].0 == (Request::<H>::DestroySurface {
            surface: #[trigger] surfaces[i],
        }) by {
            if i > 0 {
                assert(released[i - 1] == surfaces[i]);
                assert(rest[i - 1] == dialogue[i]);
            }
        }
    } else {
        let middle = ChainState { provider: started.provider, doomed: released, ..state };
        assert(middle.destroys_next(started, step));
        destroying_ends(middle, started, step, None, dialogue, end);
    }
}

/// The surfaces that were current when the device cleared the framebuffer, in order, if `bound`
/// was the current surface of the context before the dialogue.
pub open spec fn cleared_surfaces<H, E>(
    bound: Option<Surface<H>>,
    dialogue: Seq<Exchange<H, E>>,
) -> Seq<Option<Surface<H>>>
    decreases dialogue.len(),
{
    if dialogue.len() == 0 {
        seq![]
    } else {
        let rest = cleared_surfaces(bound_next(bound, dialogue[0]), dialogue.drop_first());
        if dialogue[0].0 is Clear {
            seq![bound] + rest
        } else {
            rest
        }
    }
}

/// A clear that succeeds clears the back buffer, once, and nothing else. It puts back the GL
/// state that it found, and leaves the swap chain and the current surface of the context as they
/// were. The exception is a context that had no current surface: then a back buffer that was not
/// attached stays with the context.
pub proof fn clear_touches_only_the_back_buffer<H, P: SurfaceProvider<H>>(
    state: ChainState<H, P>,
    context_id: ContextID,
    bound: Option<Surface<H>>,
    dialogue: Seq<Exchange<H, P::Error>>,
    end: ChainState<H, P>,
)
    requires
        state.at_rest(),
        Operation::ClearSurface.runs(state, context_id, dialogue, end, Ok(())),
        truthful(bound, dialogue),
    ensures
        ({
            let bound_end = bound_after(bound, dialogue);
            &&& context_id == state.context_id
            &&& cleared_surfaces(bound, dialogue) == seq![back_buffer(state, bound)]
            &&& dialogue.len() > 1
            &&& dialogue[0].0 == Request::<H>::SaveGlState
            &&& dialogue[0].1 is Saved
            &&& dialogue.last().0 == Request::<H>::RestoreGlState { state: dialogue[0].1->Saved_0 }
            &&& if state.unattached is None || bound is Some {
                &&& end == state
                &&& bound_end == bound
            } else {
                &&& end == ChainState { unattached: None, ..state }
                &&& bound_end == state.unattached
            }
        }),
{
    reveal_with_fuel(leads_to, 2);
    reveal_with_fuel(bound_after, 9);
    reveal_with_fuel(truthful, 9);
    reveal_with_fuel(cleared_surfaces, 9);
    let (s0, t0) = choose|started: ChainState<H, P>, step: Step<H, P::Error>|
        {
            &&& #[trigger] Operation::ClearSurface.starts(state, context_id, started, step)
            &&& leads_to(started, step, dialogue, end, Ok(()))
        };
    let d0 = dialogue;
    let (s1, t1) = first_turn(s0, t0, d0, end);
    let d1 = d0.drop_first();
    let (s2, t2) = first_turn(s1, t1, d1, end);
    let d2 = d1.drop_first();
    let (s3, t3) = first_turn(s2, t2, d2, end);
    let d3 = d2.drop_first();
    let (s4, t4) = first_turn(s3, t3, d3, end);
    let d4 = d3.drop_first();
    if state.unattached is None {
        assert(d0.last() == d3[0]);
    } else {
        let (s5, t5) = first_turn(s4, t4, d4, end);
        let d5 = d4.drop_first();
        let (s6, t6) = first_turn(s5, t5, d5, end);
        let d6 = d5.drop_first();
        if bound is None {
            assert(d0.last() == d5[0]);
        } else {
            let (s7, t7) = first_turn(s6, t6, d6, end);
            let d7 = d6.drop_first();
            let (s8, t8) = first_turn(s7, t7, d7, end);
            assert(d0.last() == d7[0]);
        }
    }
}

/// Taking the attachment, if it succeeds, attaches the one swap chain, which was not attached,
/// and detaches the other, which was. Both keep their back buffers; the one that goes with the
/// attachment is now the current surface of the context. Nothing else changes.
pub proof fn attachment_moves<H, P: SurfaceProvider<H>, Q>(
    state: ChainState<H, P>,
    other: ChainState<H, Q>,
    context_id: ContextID,
    bound: Option<Surface<H>>,
    dialogue: Seq<Exchange<H, P::Error>>,
    end: ChainState<H, P>,
    other_end: ChainState<H, Q>,
)
    requires
        state.at_rest(),
        attachment_runs(state, other, context_id, dialogue, end, other_end, Ok(())),
        truthful(bound, dialogue),
    ensures
        ({
            let bound_end = bound_after(bound, dialogue);
            &&& context_id == state.context_id && context_id == other.context_id
            &&& state.unattached is Some && other.unattached is None
            &&& end.unattached is None && other_end.unattached is Some
            &&& back_buffer(end, bound_end) == back_buffer(state, bound)
            &&& back_buffer(other_end, bound_end) == back_buffer(other, bound)
            &&& bound_end == state.unattached
            &&& end == ChainState { unattached: None, ..state }
            &&& other_end == ChainState { unattached: bound, ..other }
        }),
{
    reveal_with_fuel(attachment_leads_to, 3);
    reveal_with_fuel(bound_after, 3);
    reveal_with_fuel(truthful, 3);
    let (started, step) = choose|started: ChainState<H, P>, step: Step<H, P::Error>|
        {
            &&& #[trigger] state.attachment_starts(context_id, other, started, step)
            &&& attachment_leads_to(started, other, step, dialogue, end, other_end, Ok(()))
        };
    let rest = dialogue.drop_first();
    let (unbound, other_unbound, unbound_step) = choose|
        next: ChainState<H, P>,
        other_next: ChainState<H, Q>,
        next_step: Step<H, P::Error>,
    |
        {
            &&& #[trigger] started.attachment_resumes(
                other,
                dialogue[0].1,
                next,
                other_next,
                next_step,
            )
            &&& attachment_leads_to(next, other_next, next_step, rest, end, other_end, Ok(()))
        };
    let tail = rest.drop_first();
    let (attached, other_attached, attached_step) = choose|
        next: ChainState<H, P>,
        other_next: ChainState<H, Q>,
        next_step: Step<H, P::Error>,
    |
        {
            &&& #[trigger] unbound.attachment_resumes(
                other_unbound,
                rest[0].1,
                next,
                other_next,
                next_step,
            )
            &&& attachment_leads_to(next, other_next, next_step, tail, end, other_end, Ok(()))
        };
    assert(tail.len() == 0);
}

/// Taking the attachment back undoes it: both swap chains, and the current surface of the
/// context, are as they were.
pub proof fn attachment_is_undone<H, P: SurfaceProvider<H>, Q: SurfaceProvider<H>>(
    state: ChainState<H, P>,
    other: ChainState<H, Q>,
    context_id: ContextID,
    bound: Option<Surface<H>>,
    dialogue: Seq<Exchange<H, P::Error>>,
    middle: ChainState<H, P>,
    other_middle: ChainState<H, Q>,
    dialogue_back: Seq<Exchange<H, Q::Error>>,
    end: ChainState<H, P>,
    other_end: ChainState<H, Q>,
)
    requires
        state.at_rest(),
        other.at_rest(),
        attachment_runs(state, other, context_id, dialogue, middle, other_middle, Ok(())),
        truthful(bound, dialogue),
        attachment_runs(
            other_middle,
            middle,
            context_id,
            dialogue_back,
            other_end,
            end,
            Ok(()),
        ),
        truthful(bound_after(bound, dialogue), dialogue_back),
    ensures
        end == state,
        other_end == other,
        bound_after(bound_after(bound, dialogue), dialogue_back) == bound,
{
    attachment_moves(state, other, context_id, bound, dialogue, middle, other_middle);
    attachment_moves(
        other_middle,
        middle,
        context_id,
        bound_after(bound, dialogue),
        dialogue_back,
        other_end,
        end,
    );
}

/// A context that is not the producer context gets an error from every operation, at once and
/// without a change.
pub proof fn foreign_contexts_are_refused<H, P: SurfaceProvider<H>>(
    operation: Operation,
    state: ChainState<H, P>,
    context_id: ContextID,
    dialogue: Seq<Exchange<H, P::Error>>,
    end: ChainState<H, P>,
    result: Result<(), Error<P::Error>>,
)
    requires
        context_id != state.context_id,
        operation.runs(state, context_id, dialogue, end, result),
    ensures
        dialogue.len() == 0,
        end == state,
        result == Err::<(), Error<P::Error>>(Error::IncompatibleContext),
{
}

/// An operation reports the first refusal of the device, and asks nothing after it: the answers
/// before the last are no refusals, and if the last answer is one, the operation fails with the
/// error that it carries.
pub proof fn refusals_are_reported<H, P: SurfaceProvider<H>>(
    state: ChainState<H, P>,
    step: Step<H, P::Error>,
    dialogue: Seq<Exchange<H, P::Error>>,
    end: ChainState<H, P>,
    result: Result<(), Error<P::Error>>,
)
    requires
        leads_to(state, step, dialogue, end, result),
        dialogue.len() > 0,
    ensures
        forall|i: int| 0 <= i < dialogue.len() - 1 ==> !(#[trigger] dialogue[i]).1.refuses(),
        dialogue.last().1.refuses() ==> result == Err::<(), Error<P::Error>>(
            Error::Refused(dialogue.last().1.refusal()),
        ),
    decreases dialogue.len(),
{
    let rest = dialogue.drop_first();
    let (next, next_step) = choose|next: ChainState<H, P>, next_step: Step<H, P::Error>|
        {
            &&& #[trigger] state.resumes(dialogue[0].1, next, next_step)
            &&& leads_to(next, next_step, rest, end, result)
        };
    if rest.len() > 0 {
        refusals_are_reported(next, next_step, rest, end, result);
        assert forall|i: int| 0 <= i < dialogue.len() - 1 implies !(
        #[trigger] dialogue[i]).1.refuses() by {
            if i > 0 {
                assert(rest[i - 1] == dialogue[i]);
            }
        }
        assert(rest.last() == dialogue.last());
    }
}

/// The producer context of a swap chain never changes, and its size changes only by a resize
/// that succeeds.
pub proof fn producer_and_size_stay<H, P: SurfaceProvider<H>>(
    operation: Operation,
    state: ChainState<H, P>,
    context_id: ContextID,
    dialogue: Seq<Exchange<H, P::Error>>,
    end: ChainState<H, P>,
    result: Result<(), Error<P::Error>>,
)
    requires
        state.at_rest(),
        operation.runs(state, context_id, dialogue, end, result),
    ensures
        end.context_id == state.context_id,
        end.size == match operation {
            Operation::Resize { size } => if result is Ok {
                size
            } else {
                state.size
            },
            _ => state.size,
        },
{
    let (started, step) = choose|started: ChainState<H, P>, step: Step<H, P::Error>|
        {
            &&& #[trigger] operation.starts(state, context_id, started, step)
            &&& leads_to(started, step, dialogue, end, result)
        };
    let target = match operation {
        Operation::Resize { size } => Some(size),
        _ => None,
    };
    rest_keeps_size(target, started, step, dialogue, end, result);
}

/// The size that the running operation gives the swap chain in the end, if it is a resize.
pub open spec fn resize_target<H>(stage: Stage<H>) -> Option<Size2D> {
    match stage {
        Stage::ResizeCreating { size } => Some(size),
        Stage::ResizeUnbinding { size, back } => Some(size),
        Stage::ResizeBinding { size, replaced } => Some(size),
        Stage::ResizeDestroying { size } => Some(size),
        _ => None,
    }
}

proof fn rest_keeps_size<H, P: SurfaceProvider<H>>(
    target: Option<Size2D>,
    state: ChainState<H, P>,
    step: Step<H, P::Error>,
    dialogue: Seq<Exchange<H, P::Error>>,
    end: ChainState<H, P>,
    result: Result<(), Error<P::Error>>,
)
    requires
        leads_to(state, step, dialogue, end, result),
        step is Ask ==> resize_target(state.stage) == target,
        step is Done && step->Done_0 is Ok && target is Some ==> state.size == target->0,
    ensures
        end.context_id == state.context_id,
        end.size == if target is Some && result is Ok {
            target->0
        } else {
            state.size
        },
    decreases dialogue.len(),
{
    if dialogue.len() > 0 {
        let rest = dialogue.drop_first();
        let (next, next_step) = choose|next: ChainState<H, P>, next_step: Step<H, P::Error>|
            {
                &&& #[trigger] state.resumes(dialogue[0].1, next, next_step)
                &&& leads_to(next, next_step, rest, end, result)
            };
        rest_keeps_size(target, next, next_step, rest, end, result);
    }
}

/// The rest of an operation succeeds if the device refuses nothing.
proof fn rest_succeeds<H, E>(
    state: SurfmanChain<H, E>,
    step: Step<H, E>,
    dialogue: Seq<Exchange<H, E>>,
    end: SurfmanChain<H, E>,
    result: Result<(), Error<E>>,
)
    requires
        leads_to(state, step, dialogue, end, result),
        step is Done ==> step->Done_0 is Ok,
        forall|i: int| 0 <= i < dialogue.len() ==> !(#[trigger] dialogue[i]).1.refuses(),
    ensures
        result is Ok,
    decreases dialogue.len(),
{
    if dialogue.len() > 0 {
        let rest = dialogue.drop_first();
        let (next, next_step) = choose|next: SurfmanChain<H, E>, next_step: Step<H, E>|
            {
                &&& #[trigger] state.resumes(dialogue[0].1, next, next_step)
                &&& leads_to(next, next_step, rest, end, result)
            };
        assert forall|i: int| 0 <= i < rest.len() implies !(#[trigger] rest[i]).1.refuses() by {
            assert(rest[i] == dialogue[i + 1]);
        }
        assert(!dialogue[0].1.refuses());
        rest_succeeds(next, next_step, rest, end, result);
    }
}

/// The producer's own operations fail only if the device refuses a request (a resize must ask for
/// a size that is not too small).
pub proof fn producers_fail_only_by_refusals<H, E>(
    operation: Operation,
    state: SurfmanChain<H, E>,
    dialogue: Seq<Exchange<H, E>>,
    end: SurfmanChain<H, E>,
    result: Result<(), Error<E>>,
)
    requires
        operation.runs(state, state.context_id, dialogue, end, result),
        operation matches Operation::Resize { size } ==> size.width >= 1 && size.height >= 1,
        forall|i: int| 0 <= i < dialogue.len() ==> !(#[trigger] dialogue[i]).1.refuses(),
    ensures
        result is Ok,
{
    let (started, step) = choose|started: SurfmanChain<H, E>, step: Step<H, E>|
        {
            &&& #[trigger] operation.starts(state, state.context_id, started, step)
            &&& leads_to(started, step, dialogue, end, result)
        };
    rest_succeeds(started, step, dialogue, end, result);
}

/// How far the running operation is from its end.
pub open spec fn distance<H>(stage: Stage<H>) -> nat {
    match stage {
        Stage::Idle => 0,
        Stage::Destroying
        | Stage::ResizeDestroying { .. }
        | Stage::AttachBinding { .. }
        | Stage::Restoring => 1,
        Stage::SwapBinding { .. }
        | Stage::ResizeBinding { .. }
        | Stage::AttachUnbinding { .. }
        | Stage::ReattachBinding { .. }
        | Stage::DestroyingBack => 2,
        Stage::SwapUnbinding { .. }
        | Stage::ResizeUnbinding { .. }
        | Stage::ReattachUnbinding { .. } => 3,
        Stage::SwapCreating | Stage::ResizeCreating { .. } | Stage::Clearing { .. } => 4,
        Stage::ClearLocating { .. } => 5,
        Stage::ClearBinding { .. } => 6,
        Stage::ClearUnbinding { .. } => 7,
        Stage::ClearSaving => 8,
    }
}

/// Whether the operation is nearer to its end in `after` than in `before`. No operation can get
/// nearer to its end for ever.
pub open spec fn nearer<H, P>(before: ChainState<H, P>, after: ChainState<H, P>) -> bool {
    ||| distance(after.stage) < distance(before.stage)
    ||| {
        &&& distance(after.stage) == distance(before.stage)
        &&& after.doomed.len() < before.doomed.len()
    }
}

/// Every answer brings the running operation nearer to its end, whatever it is.
pub proof fn answers_bring_the_end_nearer<H, P: SurfaceProvider<H>, Q>(
    state: ChainState<H, P>,
    other: ChainState<H, Q>,
    reply: Reply<H, P::Error>,
    after: ChainState<H, P>,
    other_after: ChainState<H, Q>,
    step: Step<H, P::Error>,
)
    requires
        state.stage.awaits(reply),
        state.resumes(reply, after, step) || state.attachment_resumes(
            other,
            reply,
            after,
            other_after,
            step,
        ),
    ensures
        nearer(state, after),
{
}

/// What taking the attachment comes to. It is refused at once if the context is not the producer
/// context of both swap chains, and it fails at once if this swap chain is attached or the other
/// one is not; nothing changes then. In all other cases it succeeds, unless the device refuses a
/// request. Nothing changes if the device cannot unbind the surface of the other swap chain. If it
/// cannot bind the surface of this one, that surface stays with the device, and the other swap
/// chain gets its own back, detached. Both swap chains come to rest, with the producer context and
/// the size that they had.
pub proof fn attachments_are_answered<
    H,
    P: SurfaceProvider<H>,
    Q: SurfaceProvider<H>,
>(
    state: ChainState<H, P>,
    other: ChainState<H, Q>,
    context_id: ContextID,
    dialogue: Seq<Exchange<H, P::Error>>,
    end: ChainState<H, P>,
    other_end: ChainState<H, Q>,
    result: Result<(), Error<P::Error>>,
)
    requires
        state.at_rest(),
        other.at_rest(),
        attachment_runs(state, other, context_id, dialogue, end, other_end, result),
    ensures
        end.at_rest(),
        other_end.at_rest(),
        end.context_id == state.context_id && end.size == state.size,
        other_end.context_id == other.context_id && other_end.size == other.size,
        if context_id != state.context_id || context_id != other.context_id {
            &&& dialogue.len() == 0
            &&& end == state && other_end == other
            &&& result == Err::<(), Error<P::Error>>(Error::IncompatibleContext)
        } else if state.unattached is None || other.unattached is Some {
            &&& dialogue.len() == 0
            &&& end == state && other_end == other
            &&& result == Err::<(), Error<P::Error>>(Error::Failed)
        } else {
            &&& 0 < dialogue.len() <= 2
            &&& dialogue.len() == 2 ==> !dialogue[0].1.refuses()
            &&& dialogue.last().1.refuses() ==> result == Err::<(), Error<P::Error>>(
                Error::Refused(dialogue.last().1.refusal()),
            )
            &&& !dialogue.last().1.refuses() ==> result is Ok
            &&& result is Err && dialogue.len() == 1 ==> end == state && other_end == other
            &&& result is Err && dialogue.len() == 2 ==> {
                &&& end == ChainState { unattached: None, ..state }
                &&& other_end == ChainState {
                    unattached: dialogue[0].1->Unbound_0->Ok_0,
                    ..other
                }
                &&& other_end.unattached is Some
            }
        },
{
    reveal_with_fuel(attachment_leads_to, 4);
    assert(state.doomed =~= seq![]);
}

/// If one of two swap chains is attached and the other is not, this is so after one has taken the
/// attachment from the other, or failed to. The exception is a device that cannot bind the
/// surface: that leaves the context without one.
pub proof fn one_of_two_stays_attached<H, P: SurfaceProvider<H>, Q: SurfaceProvider<H>>(
    state: ChainState<H, P>,
    other: ChainState<H, Q>,
    context_id: ContextID,
    dialogue: Seq<Exchange<H, P::Error>>,
    end: ChainState<H, P>,
    other_end: ChainState<H, Q>,
    result: Result<(), Error<P::Error>>,
)
    requires
        state.at_rest(),
        other.at_rest(),
        attachment_runs(state, other, context_id, dialogue, end, other_end, result),
        state.unattached is None <==> other.unattached is Some,
        !(dialogue.len() == 2 && dialogue[1].1.refuses()),
    ensures
        end.unattached is None <==> other_end.unattached is Some,
{
    reveal_with_fuel(attachment_leads_to, 4);
    attachments_are_answered(state, other, context_id, dialogue, end, other_end, result);
}

/// What holds while an operation is under way, with `bound` as the current surface of the context:
/// a swap chain without an unattached back buffer has it on the context, or in the hands of the
/// operation.
pub open spec fn accounted<H, P>(state: ChainState<H, P>, bound: Option<Surface<H>>) -> bool {
    match state.stage {
        Stage::SwapBinding { .. }
        | Stage::ResizeBinding { .. }
        | Stage::ClearUnbinding { .. }
        | Stage::ClearBinding { .. }
        | Stage::ReattachBinding { .. } => true,
        _ => state.unattached is Some || bound is Some,
    }
}

/// Whether `request` is one that an operation at `stage` may wait on: it concerns the current
/// surface of the context if and only if the awaited answer does.
pub open spec fn fits<H>(stage: Stage<H>, request: Request<H>) -> bool {
    match stage {
        Stage::SwapUnbinding { .. }
        | Stage::ResizeUnbinding { .. }
        | Stage::ClearUnbinding { .. }
        | Stage::ReattachUnbinding { .. } => request is UnbindSurface,
        Stage::SwapBinding { .. }
        | Stage::ResizeBinding { .. }
        | Stage::ClearBinding { .. }
        | Stage::ReattachBinding { .. } => request is BindSurface,
        _ => !(request is UnbindSurface || request is BindSurface),
    }
}

/// How many answers an operation that clears an unattached back buffer waits for until the back
/// buffer is bound.
pub open spec fn answers_until_bound<H>(stage: Stage<H>) -> nat {
    match stage {
        Stage::ClearSaving => 3,
        Stage::ClearUnbinding { .. } => 2,
        Stage::ClearBinding { .. } => 1,
        _ => 0,
    }
}

/// Whether the running operation is [`crate::chain::SwapChain::clear_surface`].
pub open spec fn clearing<H>(stage: Stage<H>) -> bool {
    match stage {
        Stage::ClearSaving
        | Stage::ClearUnbinding { .. }
        | Stage::ClearBinding { .. }
        | Stage::ClearLocating { .. }
        | Stage::Clearing { .. }
        | Stage::ReattachUnbinding { .. }
        | Stage::ReattachBinding { .. }
        | Stage::Restoring => true,
        _ => false,
    }
}

/// Whether the last thing that the device answered is that it cannot bind a surface.
pub open spec fn ends_with_a_refused_bind<H, E>(dialogue: Seq<Exchange<H, E>>) -> bool {
    &&& dialogue.len() > 0
    &&& dialogue.last().0 is BindSurface
    &&& dialogue.last().1.refuses()
}

proof fn rest_stays_accounted<H, P: SurfaceProvider<H>>(
    state: ChainState<H, P>,
    step: Step<H, P::Error>,
    bound: Option<Surface<H>>,
    dialogue: Seq<Exchange<H, P::Error>>,
    end: ChainState<H, P>,
    result: Result<(), Error<P::Error>>,
)
    requires
        leads_to(state, step, dialogue, end, result),
        match step {
            Step::Ask(request) => fits(state.stage, request),
            Step::Done(_) => state.stage is Idle,
        },
        state.stage !is DestroyingBack,
        accounted(state, bound),
        !(0 < dialogue.len() == answers_until_bound(state.stage)
            && dialogue.last().1.refuses()),
        !clearing(state.stage) ==> !ends_with_a_refused_bind(dialogue),
    ensures
        end.unattached is Some || bound_after(bound, dialogue) is Some,
    decreases dialogue.len(),
{
    if dialogue.len() > 0 {
        let rest = dialogue.drop_first();
        let (next, next_step) = choose|next: ChainState<H, P>, next_step: Step<H, P::Error>|
            {
                &&& #[trigger] state.resumes(dialogue[0].1, next, next_step)
                &&& leads_to(next, next_step, rest, end, result)
            };
        if rest.len() > 0 {
            assert(rest.last() == dialogue.last());
        }
        rest_stays_accounted(next, next_step, bound_next(bound, dialogue[0]), rest, end, result);
    }
}

/// A swap chain that has no unattached back buffer is attached: the context has a surface. An
/// operation keeps it so, whatever the device answers. The exceptions are the destruction of the
/// swap chain, a device that cannot bind the new back buffer of a swap or a resize, and one that
/// cannot bind the unattached back buffer that a clear hands to it.
pub proof fn attached_chains_have_a_surface<H, P: SurfaceProvider<H>>(
    operation: Operation,
    state: ChainState<H, P>,
    context_id: ContextID,
    bound: Option<Surface<H>>,
    dialogue: Seq<Exchange<H, P::Error>>,
    end: ChainState<H, P>,
    result: Result<(), Error<P::Error>>,
)
    requires
        state.at_rest(),
        state.unattached is None ==> bound is Some,
        operation.runs(state, context_id, dialogue, end, result),
        operation !is Destroy,
        operation is ClearSurface ==> !(dialogue.len() == 3 && dialogue[2].1.refuses()),
        operation !is ClearSurface ==> !ends_with_a_refused_bind(dialogue),
    ensures
        end.unattached is None ==> bound_after(bound, dialogue) is Some,
{
    let (started, step) = choose|started: ChainState<H, P>, step: Step<H, P::Error>|
        {
            &&& #[trigger] operation.starts(state, context_id, started, step)
            &&& leads_to(started, step, dialogue, end, result)
        };
    rest_stays_accounted(started, step, bound, dialogue, end, result);
}

/// The rest of a swap or a resize leaves the attachment alone.
proof fn rest_keeps_attachment<H, P: SurfaceProvider<H>>(
    state: ChainState<H, P>,
    step: Step<H, P::Error>,
    dialogue: Seq<Exchange<H, P::Error>>,
    end: ChainState<H, P>,
    result: Result<(), Error<P::Error>>,
)
    requires
        leads_to(state, step, dialogue, end, result),
        !(clearing(state.stage) || state.stage.attaching()),
        state.stage !is DestroyingBack,
    ensures
        end.unattached is Some <==> state.unattached is Some,
    decreases dialogue.len(),
{
    if dialogue.len() > 0 {
        let rest = dialogue.drop_first();
        let (next, next_step) = choose|next: ChainState<H, P>, next_step: Step<H, P::Error>|
            {
                &&& #[trigger] state.resumes(dialogue[0].1, next, next_step)
                &&& leads_to(next, next_step, rest, end, result)
            };
        rest_keeps_attachment(next, next_step, rest, end, result);
    }
}

/// A swap or a resize never attaches or detaches a swap chain, whatever the device answers.
pub proof fn swaps_and_resizes_keep_the_attachment<H, P: SurfaceProvider<H>>(
    operation: Operation,
    state: ChainState<H, P>,
    context_id: ContextID,
    dialogue: Seq<Exchange<H, P::Error>>,
    end: ChainState<H, P>,
    result: Result<(), Error<P::Error>>,
)
    requires
        state.at_rest(),
        operation is SwapBuffers || operation is Resize,
        operation.runs(state, context_id, dialogue, end, result),
    ensures
        end.unattached is Some <==> state.unattached is Some,
{
    let (started, step) = choose|started: ChainState<H, P>, step: Step<H, P::Error>|
        {
            &&& #[trigger] operation.starts(state, context_id, started, step)
            &&& leads_to(started, step, dialogue, end, result)
        };
    rest_keeps_attachment(started, step, dialogue, end, result);
}

/// A clear that cannot get the current surface off the context changes nothing.
pub proof fn clears_that_cannot_start_change_nothing<H, P: SurfaceProvider<H>>(
    state: ChainState<H, P>,
    context_id: ContextID,
    dialogue: Seq<Exchange<H, P::Error>>,
    end: ChainState<H, P>,
    result: Result<(), Error<P::Error>>,
)
    requires
        state.at_rest(),
        Operation::ClearSurface.runs(state, context_id, dialogue, end, result),
        dialogue.len() == 2,
    ensures
        dialogue[1].0 is UnbindSurface,
        dialogue[1].1.refuses(),
        end == state,
{
    reveal_with_fuel(leads_to, 3);
    assert(state.doomed =~= seq![]);
}

/// Once a request for a surface is answered, or none was needed, no other follows.
pub(crate) proof fn rest_creates_nothing<H, P: SurfaceProvider<H>>(
    state: ChainState<H, P>,
    step: Step<H, P::Error>,
    dialogue: Seq<Exchange<H, P::Error>>,
    end: ChainState<H, P>,
    result: Result<(), Error<P::Error>>,
)
    requires
        leads_to(state, step, dialogue, end, result),
        !(step is Ask && step->Ask_0 is CreateSurface),
    ensures
        forall|i: int| 0 <= i < dialogue.len() ==> (#[trigger] dialogue[i]).0 !is CreateSurface,
    decreases dialogue.len(),
{
    if dialogue.len() > 0 {
        let rest = dialogue.drop_first();
        let (next, next_step) = choose|next: ChainState<H, P>, next_step: Step<H, P::Error>|
            {
                &&& #[trigger] state.resumes(dialogue[0].1, next, next_step)
                &&& leads_to(next, next_step, rest, end, result)
            };
        rest_creates_nothing(next, next_step, rest, end, result);
        assert forall|i: int| 0 <= i < dialogue.len() implies (
        #[trigger] dialogue[i]).0 !is CreateSurface by {
            if i > 0 {
                assert(rest[i - 1] == dialogue[i]);
            }
        }
    }
}

/// A swap asks the device for no surface if the backend holds one of the right size: a front
/// buffer that no consumer took, or a surface that a consumer handed back.
pub proof fn swaps_recycle<H, E>(
    state: SurfmanChain<H, E>,
    context_id: ContextID,
    kept: Surface<H>,
    dialogue: Seq<Exchange<H, E>>,
    end: SurfmanChain<H, E>,
    result: Result<(), Error<E>>,
)
    requires
        state.provider@.all_surfaces().contains(kept),
        kept.size == state.size,
        Operation::SwapBuffers.runs(state, context_id, dialogue, end, result),
    ensures
        forall|i: int| 0 <= i < dialogue.len() ==> (#[trigger] dialogue[i]).0 !is CreateSurface,
{
    let (started, step) = choose|started: SurfmanChain<H, E>, step: Step<H, E>|
        {
            &&& #[trigger] Operation::SwapBuffers.starts(state, context_id, started, step)
            &&& leads_to(started, step, dialogue, end, result)
        };
    let recycled = state.provider@.front_recycled().recycled;
    assert(recycled.contains(kept)) by {
        let all = state.provider@.all_surfaces();
        let index = all.index_of(kept);
        assert(all[index] == kept);
        if let Some(front) = state.provider@.pending {
            if index == 0 {
                assert(recycled[recycled.len() - 1] == kept);
            } else {
                assert(recycled[index - 1] == kept);
            }
        } else {
            assert(recycled[index] == kept);
        }
    }
    let index = recycled.index_of(kept);
    assert(recycled[index].size == state.size);
    rest_creates_nothing(started, step, dialogue, end, result);
}

} // verus!
