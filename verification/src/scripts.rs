//! The requests of whole operations, one by one.
//!
//! For a swap chain with the backend that this library comes with, the laws here say what an
//! operation asks of the device, request by request, and what it leaves behind, also where the
//! device refuses a request.

use vstd::prelude::*;

use crate::chain::{ChainState, Stage};
use crate::device::{Reply, Request, Step};
use crate::dialogue::{
    attachment_leads_to, attachment_runs, leads_to, Exchange, Operation, SurfmanChain,
};
use crate::provider::{Provision, SurfaceProvider, SurfmanPool, SurfmanProvider};
use crate::supply::filled_up;
use crate::surface::{ContextID, Error, Size2D, Surface};

verus! {

/// The error that an answer carries, if it does.
pub open spec fn failure<H, E>(reply: Reply<H, E>) -> Option<E> {
    match reply {
        Reply::Created(Err(error)) => Some(error),
        Reply::Destroyed(Err(error)) => Some(error),
        Reply::Unbound(Err(error)) => Some(error),
        Reply::Bound(Err(error)) => Some(error),
        _ => None,
    }
}

/// Whether an operation that went through `dialogue` ends with `result` as it should: it goes on
/// until an answer carries an error, which is the result then, and succeeds if none does.
pub open spec fn concluded<H, E>(
    dialogue: Seq<Exchange<H, E>>,
    result: Result<(), Error<E>>,
) -> bool {
    &&& forall|i: int| 0 <= i < dialogue.len() - 1 ==> failure((#[trigger] dialogue[i]).1) is None
    &&& if dialogue.len() > 0 && failure(dialogue.last().1) is Some {
        result == Err::<(), Error<E>>(Error::Refused(failure(dialogue.last().1)->0))
    } else {
        result is Ok
    }
}

/// Whether `dialogue` has `surfaces` destroyed, first to last, as far as it gets. It gets to the
/// end if it succeeds.
pub open spec fn destroys<H, E>(
    dialogue: Seq<Exchange<H, E>>,
    surfaces: Seq<Surface<H>>,
    result: Result<(), Error<E>>,
) -> bool {
    &&& dialogue.len() <= surfaces.len()
    &&& forall|i: int|
        0 <= i < dialogue.len() ==> (#[trigger] dialogue[i]).0 == (Request::<
            H,
        >::DestroySurface { surface: surfaces[i] })
    &&& result is Ok ==> dialogue.len() == surfaces.len()
}

/// The turn that an operation under way takes on the first answer of its dialogue.
proof fn turn<H, P: SurfaceProvider<H>>(
    state: ChainState<H, P>,
    step: Step<H, P::Error>,
    dialogue: Seq<Exchange<H, P::Error>>,
    end: ChainState<H, P>,
    result: Result<(), Error<P::Error>>,
) -> (turn: (ChainState<H, P>, Step<H, P::Error>))
    requires
        leads_to(state, step, dialogue, end, result),
        step is Ask,
    ensures
        dialogue.len() > 0,
        step == Step::<H, P::Error>::Ask(dialogue[0].0),
        state.stage.awaits(dialogue[0].1),
        state.resumes(dialogue[0].1, turn.0, turn.1),
        leads_to(turn.0, turn.1, dialogue.drop_first(), end, result),
        turn.1 is Done ==> {
            &&& dialogue.len() == 1
            &&& end == turn.0
            &&& turn.1 == Step::<H, P::Error>::Done(result)
        },
{
    choose|next: ChainState<H, P>, next_step: Step<H, P::Error>|
        {
            &&& #[trigger] state.resumes(dialogue[0].1, next, next_step)
            &&& leads_to(next, next_step, dialogue.drop_first(), end, result)
        }
}

/// An answer without an error before a dialogue changes nothing about its conclusion.
proof fn concluded_later<H, E>(dialogue: Seq<Exchange<H, E>>, result: Result<(), Error<E>>)
    requires
        dialogue.len() > 0,
        failure(dialogue[0].1) is None,
        concluded(dialogue.drop_first(), result),
    ensures
        concluded(dialogue, result),
{
    let rest = dialogue.drop_first();
    assert forall|i: int| 0 <= i < dialogue.len() - 1 implies failure(
        (#[trigger] dialogue[i]).1,
    ) is None by {
        if i > 0 {
            assert(rest[i - 1] == dialogue[i]);
        }
    }
    if rest.len() > 0 {
        assert(rest.last() == dialogue.last());
    }
}

proof fn destroying_goes_on<H, P: SurfaceProvider<H>>(
    state: ChainState<H, P>,
    after: ChainState<H, P>,
    step: Step<H, P::Error>,
    dialogue: Seq<Exchange<H, P::Error>>,
    end: ChainState<H, P>,
    result: Result<(), Error<P::Error>>,
)
    requires
        state.destroys_next(after, step),
        leads_to(after, step, dialogue, end, result),
    ensures
        destroys(dialogue, state.doomed, result),
        concluded(dialogue, result),
        end == state.stopped(),
    decreases state.doomed.len(),
{
    if state.doomed.len() > 0 {
        let (next, next_step) = turn(after, step, dialogue, end, result);
        let rest = dialogue.drop_first();
        if failure(dialogue[0].1) is None {
            destroying_goes_on(after, next, next_step, rest, end, result);
            concluded_later(dialogue, result);
            assert forall|i: int| 0 <= i < dialogue.len() implies (#[trigger] dialogue[i]).0 == (
            Request::<H>::DestroySurface { surface: state.doomed[i] }) by {
                if i > 0 {
                    assert(rest[i - 1] == dialogue[i]);
                }
            }
        }
        assert(end == state.stopped());
    } else {
        assert(end == state.stopped());
    }
}

/// What a swap of a swap chain in the state `state` leaves, beside its back buffer: the pending
/// front buffer, and the surfaces that wait for reuse.
pub open spec fn leaves<H, E>(
    state: SurfmanChain<H, E>,
    end: SurfmanChain<H, E>,
    pending: Option<Surface<H>>,
    recycled: Seq<Surface<H>>,
) -> bool {
    &&& end.provider@.pending == pending
    &&& end.provider@.recycled == recycled
    &&& end.provider@.access == state.provider@.access
    &&& end.size == state.size
    &&& end.context_id == state.context_id
    &&& end.stage is Idle
    &&& end.doomed.len() == 0
}

/// Whether `dialogue` is the rest of a swap that has its new back buffer `back`, while `left` wait
/// for reuse. If the swap chain is not attached, the old back buffer becomes the front buffer at
/// once. If it is attached, the old back buffer is unbound and `back` is bound. The surfaces in
/// `left` are destroyed once there is a new front buffer.
pub open spec fn exchange<H, E>(
    state: SurfmanChain<H, E>,
    back: Surface<H>,
    left: Seq<Surface<H>>,
    dialogue: Seq<Exchange<H, E>>,
    end: SurfmanChain<H, E>,
    result: Result<(), Error<E>>,
) -> bool {
    &&& concluded(dialogue, result)
    &&& match state.unattached {
        Some(front) => {
            &&& destroys(dialogue, left, result)
            &&& end.unattached == Some(back)
            &&& leaves(state, end, Some(front), seq![])
        },
        None => {
            &&& end.unattached is None
            &&& dialogue.len() > 0
            &&& dialogue[0].0 == Request::<H>::UnbindSurface
            &&& match dialogue[0].1 {
                Reply::Unbound(Err(_)) => {
                    &&& dialogue.len() == 1
                    &&& leaves(state, end, None, left)
                },
                Reply::Unbound(Ok(Some(front))) => {
                    &&& dialogue.len() > 1
                    &&& dialogue[1].0 == Request::<H>::BindSurface { surface: back }
                    &&& match dialogue[1].1 {
                        Reply::Bound(Err(_)) => {
                            &&& dialogue.len() == 2
                            &&& leaves(state, end, None, left)
                        },
                        Reply::Bound(Ok(_)) => {
                            &&& destroys(dialogue.skip(2), left, result)
                            &&& leaves(state, end, Some(front), seq![])
                        },
                        _ => false,
                    }
                },
                _ => false,
            }
        },
    }
}

proof fn presenting_goes_on<H, E>(
    state: SurfmanChain<H, E>,
    front: Surface<H>,
    after: SurfmanChain<H, E>,
    step: Step<H, E>,
    dialogue: Seq<Exchange<H, E>>,
    end: SurfmanChain<H, E>,
    result: Result<(), Error<E>>,
)
    requires
        state.presents(front, after, step),
        leads_to(after, step, dialogue, end, result),
    ensures
        destroys(dialogue, state.provider@.recycled, result),
        concluded(dialogue, result),
        end.unattached == state.unattached,
        leaves(state, end, Some(front), seq![]),
{
    let middle = ChainState {
        provider: after.provider,
        doomed: state.provider@.recycled,
        ..state
    };
    assert(middle.destroys_next(after, step));
    destroying_goes_on(middle, after, step, dialogue, end, result);
}

proof fn exchanging_goes_on<H, E>(
    state: SurfmanChain<H, E>,
    back: Surface<H>,
    after: SurfmanChain<H, E>,
    step: Step<H, E>,
    dialogue: Seq<Exchange<H, E>>,
    end: SurfmanChain<H, E>,
    result: Result<(), Error<E>>,
)
    requires
        state.exchanges(back, after, step),
        state.doomed.len() == 0,
        state.provider@.pending is None,
        leads_to(after, step, dialogue, end, result),
    ensures
        exchange(state, back, state.provider@.recycled, dialogue, end, result),
{
    let left = state.provider@.recycled;
    if let Some(front) = state.unattached {
        let replaced = ChainState { unattached: Some(back), ..state };
        presenting_goes_on(replaced, front, after, step, dialogue, end, result);
    } else {
        let (unbound, unbound_step) = turn(after, step, dialogue, end, result);
        let rest = dialogue.drop_first();
        if failure(dialogue[0].1) is None {
            let (bound, bound_step) = turn(unbound, unbound_step, rest, end, result);
            let tail = rest.drop_first();
            assert(tail =~= dialogue.skip(2));
            assert(rest[0] == dialogue[1]);
            if failure(rest[0].1) is None {
                let front = dialogue[0].1->Unbound_0->Ok_0->0;
                presenting_goes_on(unbound, front, bound, bound_step, tail, end, result);
                concluded_later(rest, result);
            }
            concluded_later(dialogue, result);
        }
    }
}

/// The surfaces that a swap may reuse: those that wait for reuse, and last the front buffer, if no
/// consumer took it.
pub open spec fn reusable<H>(pool: SurfmanPool<H>) -> Seq<Surface<H>> {
    match pool.pending {
        Some(front) => pool.recycled.push(front),
        None => pool.recycled,
    }
}

/// What starts a swap of the producer.
proof fn swap_starts<H, E>(
    state: SurfmanChain<H, E>,
    dialogue: Seq<Exchange<H, E>>,
    end: SurfmanChain<H, E>,
    result: Result<(), Error<E>>,
) -> (start: (SurfmanChain<H, E>, Step<H, E>, SurfmanProvider<H, E>, Provision<H, E>))
    requires
        Operation::SwapBuffers.runs(state, state.context_id, dialogue, end, result),
    ensures
        leads_to(start.0, start.1, dialogue, end, result),
        exists|recycled: SurfmanProvider<H, E>|
            {
                &&& #[trigger] SurfmanProvider::front_buffer_recycled(
                    state.provider,
                    state.context_id,
                    recycled,
                )
                &&& SurfmanProvider::surface_provided(
                    recycled,
                    state.context_id,
                    state.size,
                    start.2,
                    start.3,
                )
            },
        match start.3 {
            Provision::Recycled { surface } => (ChainState {
                provider: start.2,
                ..state
            }).exchanges(surface, start.0, start.1),
            Provision::Create { access, size } => {
                &&& start.0 == ChainState {
                    provider: start.2,
                    stage: Stage::SwapCreating,
                    ..state
                }
                &&& start.1 == Step::<H, E>::Ask(Request::CreateSurface { access, size })
            },
            Provision::Refused { error } => false,
        },
{
    let (started, step) = choose|started: SurfmanChain<H, E>, step: Step<H, E>|
        {
            &&& #[trigger] Operation::SwapBuffers.starts(
                state,
                state.context_id,
                started,
                step,
            )
            &&& leads_to(started, step, dialogue, end, result)
        };
    let (recycled, provider, provision) = choose|
        recycled: SurfmanProvider<H, E>,
        provider: SurfmanProvider<H, E>,
        provision: Provision<H, E>,
    |
        {
            &&& #[trigger] SurfmanProvider::front_buffer_recycled(
                state.provider,
                state.context_id,
                recycled,
            )
            &&& #[trigger] SurfmanProvider::surface_provided(
                recycled,
                state.context_id,
                state.size,
                provider,
                provision,
            )
            &&& match provision {
                Provision::Recycled { surface } => (ChainState { provider, ..state }).exchanges(
                    surface,
                    started,
                    step,
                ),
                Provision::Create { access, size } => {
                    &&& started == ChainState { provider, stage: Stage::SwapCreating, ..state }
                    &&& step == Step::<H, E>::Ask(Request::CreateSurface { access, size })
                },
                Provision::Refused { error } => false,
            }
        };
    (started, step, provider, provision)
}

/// A swap reuses the first of the reusable surfaces that has the size of the swap chain, and asks
/// the device for no surface. The last of the others fills its place.
pub proof fn swaps_reuse_the_first_that_fits<H, E>(
    state: SurfmanChain<H, E>,
    index: int,
    dialogue: Seq<Exchange<H, E>>,
    end: SurfmanChain<H, E>,
    result: Result<(), Error<E>>,
)
    requires
        state.at_rest(),
        Operation::SwapBuffers.runs(state, state.context_id, dialogue, end, result),
        0 <= index < reusable(state.provider@).len(),
        reusable(state.provider@)[index].size == state.size,
        forall|i: int|
            0 <= i < index ==> (#[trigger] reusable(state.provider@)[i]).size != state.size,
    ensures
        exchange(
            state,
            reusable(state.provider@)[index],
            filled_up(reusable(state.provider@), index),
            dialogue,
            end,
            result,
        ),
{
    let surfaces = reusable(state.provider@);
    let (started, step, provider, provision) = swap_starts(state, dialogue, end, result);
    let recycled = choose|recycled: SurfmanProvider<H, E>|
        {
            &&& #[trigger] SurfmanProvider::front_buffer_recycled(
                state.provider,
                state.context_id,
                recycled,
            )
            &&& SurfmanProvider::surface_provided(
                recycled,
                state.context_id,
                state.size,
                provider,
                provision,
            )
        };
    assert(recycled@.recycled =~= surfaces);
    assert(provision is Recycled);
    let found = choose|found: int|
        {
            &&& #[trigger] crate::provider::is_first_of_size(surfaces, state.size, found)
            &&& provision->surface == surfaces[found]
            &&& provider@ == SurfmanPool {
                recycled: crate::provider::swap_removed(surfaces, found),
                ..recycled@
            }
        };
    assert(found == index) by {
        if index < found {
            assert(surfaces[index].size != state.size);
        } else if found < index {
            assert(surfaces[found].size != state.size);
        }
    }
    assert(provider@.recycled =~= filled_up(surfaces, index));
    let fed = ChainState { provider, ..state };
    exchanging_goes_on(fed, surfaces[index], started, step, dialogue, end, result);
}

/// A swap that finds no reusable surface of the size of the swap chain asks the device for one: of
/// that very size, and of the access mode of the backend. If the device refuses, nothing but the
/// front buffer has moved, which waits for reuse.
pub proof fn swaps_create_what_is_missing<H, E>(
    state: SurfmanChain<H, E>,
    dialogue: Seq<Exchange<H, E>>,
    end: SurfmanChain<H, E>,
    result: Result<(), Error<E>>,
)
    requires
        state.at_rest(),
        Operation::SwapBuffers.runs(state, state.context_id, dialogue, end, result),
        forall|i: int|
            0 <= i < reusable(state.provider@).len() ==> (
            #[trigger] reusable(state.provider@)[i]).size != state.size,
    ensures
        concluded(dialogue, result),
        dialogue.len() > 0,
        dialogue[0].0 == (Request::<H>::CreateSurface {
            access: state.provider@.access,
            size: state.size,
        }),
        match dialogue[0].1 {
            Reply::Created(Err(_)) => {
                &&& dialogue.len() == 1
                &&& end.unattached == state.unattached
                &&& leaves(state, end, None, reusable(state.provider@))
            },
            Reply::Created(Ok(back)) => exchange(
                state,
                back,
                reusable(state.provider@),
                dialogue.drop_first(),
                end,
                result,
            ),
            _ => false,
        },
{
    let surfaces = reusable(state.provider@);
    let (started, step, provider, provision) = swap_starts(state, dialogue, end, result);
    let recycled = choose|recycled: SurfmanProvider<H, E>|
        {
            &&& #[trigger] SurfmanProvider::front_buffer_recycled(
                state.provider,
                state.context_id,
                recycled,
            )
            &&& SurfmanProvider::surface_provided(
                recycled,
                state.context_id,
                state.size,
                provider,
                provision,
            )
        };
    assert(recycled@.recycled =~= surfaces);
    if let Provision::Recycled { surface } = provision {
        let found = choose|found: int|
            {
                &&& #[trigger] crate::provider::is_first_of_size(surfaces, state.size, found)
                &&& surface == surfaces[found]
            };
        assert(surfaces[found].size == state.size);
    }
    let (created, created_step) = turn(started, step, dialogue, end, result);
    if failure(dialogue[0].1) is None {
        let back = dialogue[0].1->Created_0->Ok_0;
        let rest = dialogue.drop_first();
        exchanging_goes_on(started, back, created, created_step, rest, end, result);
        concluded_later(dialogue, result);
    }
}

/// What a resize leaves of a swap chain in the state `state`: everything as it was, but for the
/// size and the unattached back buffer.
pub open spec fn resized<H, E>(
    state: SurfmanChain<H, E>,
    end: SurfmanChain<H, E>,
    size: Size2D,
    unattached: Option<Surface<H>>,
) -> bool {
    &&& end.size == size
    &&& end.unattached == unattached
    &&& end.provider@ == state.provider@
    &&& end.context_id == state.context_id
    &&& end.stage is Idle
    &&& end.doomed.len() == 0
}

/// A resize to a size that is too small fails at once, and changes nothing.
pub proof fn small_sizes_are_refused<H, P: SurfaceProvider<H>>(
    state: ChainState<H, P>,
    size: Size2D,
    dialogue: Seq<Exchange<H, P::Error>>,
    end: ChainState<H, P>,
    result: Result<(), Error<P::Error>>,
)
    requires
        (Operation::Resize { size }).runs(state, state.context_id, dialogue, end, result),
        size.width <= 0 || size.height <= 0,
    ensures
        dialogue.len() == 0,
        end == state,
        result == Err::<(), Error<P::Error>>(Error::Failed),
{
}

/// A resize asks the device for a surface of the new size and of the access mode of the backend.
/// If the swap chain is attached, the old back buffer is unbound and the new one is bound; if not,
/// the new one takes its place. Then the old one is destroyed. The size is the new one if and only
/// if all of this succeeds.
pub proof fn resizes_go_by_the_script<H, E>(
    state: SurfmanChain<H, E>,
    size: Size2D,
    dialogue: Seq<Exchange<H, E>>,
    end: SurfmanChain<H, E>,
    result: Result<(), Error<E>>,
)
    requires
        state.at_rest(),
        (Operation::Resize { size }).runs(state, state.context_id, dialogue, end, result),
        size.width > 0 && size.height > 0,
    ensures
        concluded(dialogue, result),
        dialogue.len() > 0,
        dialogue[0].0 == (Request::<H>::CreateSurface { access: state.provider@.access, size }),
        match dialogue[0].1 {
            Reply::Created(Err(_)) => {
                &&& dialogue.len() == 1
                &&& resized(state, end, state.size, state.unattached)
            },
            Reply::Created(Ok(back)) => match state.unattached {
                Some(old_back) => {
                    &&& dialogue.len() == 2
                    &&& dialogue[1].0 == Request::<H>::DestroySurface { surface: old_back }
                    &&& resized(
                        state,
                        end,
                        if result is Ok {
                            size
                        } else {
                            state.size
                        },
                        Some(back),
                    )
                },
                None => {
                    &&& dialogue.len() > 1
                    &&& dialogue[1].0 == Request::<H>::UnbindSurface
                    &&& match dialogue[1].1 {
                        Reply::Unbound(Err(_)) => {
                            &&& dialogue.len() == 2
                            &&& resized(state, end, state.size, None)
                        },
                        Reply::Unbound(Ok(Some(old_back))) => {
                            &&& dialogue.len() > 2
                            &&& dialogue[2].0 == Request::<H>::BindSurface { surface: back }
                            &&& failure(dialogue[2].1) is Some ==> {
                                &&& dialogue.len() == 3
                                &&& resized(state, end, state.size, None)
                            }
                            &&& failure(dialogue[2].1) is None ==> {
                                &&& dialogue.len() == 4
                                &&& dialogue[3].0 == Request::<H>::DestroySurface {
                                    surface: old_back,
                                }
                                &&& resized(
                                    state,
                                    end,
                                    if result is Ok {
                                        size
                                    } else {
                                        state.size
                                    },
                                    None,
                                )
                            }
                        },
                        _ => false,
                    }
                },
            },
            _ => false,
        },
{
    let (s0, t0) = choose|started: SurfmanChain<H, E>, step: Step<H, E>|
        {
            &&& #[trigger] (Operation::Resize { size }).starts(
                state,
                state.context_id,
                started,
                step,
            )
            &&& leads_to(started, step, dialogue, end, result)
        };
    let d0 = dialogue;
    let (s1, t1) = turn(s0, t0, d0, end, result);
    if t1 is Ask {
        let d1 = d0.drop_first();
        let (s2, t2) = turn(s1, t1, d1, end, result);
        assert(d1[0] == d0[1]);
        if t2 is Ask {
            let d2 = d1.drop_first();
            let (s3, t3) = turn(s2, t2, d2, end, result);
            assert(d2[0] == d0[2]);
            if t3 is Ask {
                let d3 = d2.drop_first();
                let (s4, t4) = turn(s3, t3, d3, end, result);
                assert(d3[0] == d0[3]);
            }
        }
    }
}

/// A clear of an attached swap chain saves the GL state, has the device find the framebuffer of the
/// current surface, has that framebuffer cleared, and has the GL state restored that was saved. It
/// always succeeds, and changes nothing.
pub proof fn attached_clears_go_by_the_script<H, P: SurfaceProvider<H>>(
    state: ChainState<H, P>,
    dialogue: Seq<Exchange<H, P::Error>>,
    end: ChainState<H, P>,
    result: Result<(), Error<P::Error>>,
)
    requires
        state.at_rest(),
        Operation::ClearSurface.runs(state, state.context_id, dialogue, end, result),
        state.unattached is None,
    ensures
        result is Ok,
        end == state,
        dialogue.len() == 4,
        dialogue[0].0 == Request::<H>::SaveGlState,
        dialogue[0].1 is Saved,
        dialogue[1].0 == Request::<H>::FindFramebuffer,
        dialogue[1].1 is Framebuffer,
        dialogue[2].0 == (Request::<H>::Clear { framebuffer: dialogue[1].1->Framebuffer_0 }),
        dialogue[3].0 == (Request::<H>::RestoreGlState { state: dialogue[0].1->Saved_0 }),
{
    let (s0, t0) = choose|started: ChainState<H, P>, step: Step<H, P::Error>|
        {
            &&& #[trigger] Operation::ClearSurface.starts(state, state.context_id, started, step)
            &&& leads_to(started, step, dialogue, end, result)
        };
    let d0 = dialogue;
    let (s1, t1) = turn(s0, t0, d0, end, result);
    let d1 = d0.drop_first();
    let (s2, t2) = turn(s1, t1, d1, end, result);
    let d2 = d1.drop_first();
    let (s3, t3) = turn(s2, t2, d2, end, result);
    let d3 = d2.drop_first();
    let (s4, t4) = turn(s3, t3, d3, end, result);
    assert(d1[0] == d0[1] && d2[0] == d0[2] && d3[0] == d0[3]);
}

/// A clear of a swap chain that is not attached saves the GL state, and binds the back buffer in
/// place of the current surface. It has the framebuffer of the back buffer found, while the back
/// buffer is bound, and has that framebuffer cleared. It gives the context its surface back, if it
/// had one, and has the GL state restored that was saved. The swap chain keeps the back buffer
/// unless the context had no surface, or the device cannot bind the back buffer or unbind it again.
pub proof fn detached_clears_go_by_the_script<H, P: SurfaceProvider<H>>(
    state: ChainState<H, P>,
    back: Surface<H>,
    dialogue: Seq<Exchange<H, P::Error>>,
    end: ChainState<H, P>,
    result: Result<(), Error<P::Error>>,
)
    requires
        state.at_rest(),
        Operation::ClearSurface.runs(state, state.context_id, dialogue, end, result),
        state.unattached == Some(back),
    ensures
        concluded(dialogue, result),
        dialogue.len() > 1,
        dialogue[0].0 == Request::<H>::SaveGlState,
        dialogue[0].1 is Saved,
        dialogue[1].0 == Request::<H>::UnbindSurface,
        failure(dialogue[1].1) is Some ==> dialogue.len() == 2 && end == state,
        failure(dialogue[1].1) is None ==> {
            &&& dialogue.len() > 2
            &&& dialogue[1].1 is Unbound
            &&& dialogue[2].0 == Request::<H>::BindSurface { surface: back }
            &&& failure(dialogue[2].1) is Some ==> {
                &&& dialogue.len() == 3
                &&& end == ChainState { unattached: None, ..state }
            }
            &&& failure(dialogue[2].1) is None ==> {
                let restore = Request::<H>::RestoreGlState { state: dialogue[0].1->Saved_0 };
                &&& dialogue.len() > 5
                &&& dialogue[3].0 == Request::<H>::FindFramebuffer
                &&& dialogue[3].1 is Framebuffer
                &&& dialogue[4].0 == Request::<H>::Clear {
                    framebuffer: dialogue[3].1->Framebuffer_0,
                }
                &&& match dialogue[1].1->Unbound_0->Ok_0 {
                    None => {
                        &&& dialogue.len() == 6
                        &&& dialogue[5].0 == restore
                        &&& end == ChainState { unattached: None, ..state }
                    },
                    Some(previous) => {
                        &&& dialogue[5].0 == Request::<H>::UnbindSurface
                        &&& failure(dialogue[5].1) is Some ==> {
                            &&& dialogue.len() == 6
                            &&& end == ChainState { unattached: None, ..state }
                        }
                        &&& failure(dialogue[5].1) is None ==> {
                            &&& dialogue.len() > 6
                            &&& dialogue[5].1 is Unbound
                            &&& dialogue[6].0 == Request::<H>::BindSurface { surface: previous }
                            &&& end == ChainState {
                                unattached: dialogue[5].1->Unbound_0->Ok_0,
                                ..state
                            }
                            &&& end.unattached is Some
                            &&& failure(dialogue[6].1) is Some ==> dialogue.len() == 7
                            &&& failure(dialogue[6].1) is None ==> {
                                &&& dialogue.len() == 8
                                &&& dialogue[7].0 == restore
                            }
                        }
                    },
                }
            }
        },
{
    let (s0, t0) = choose|started: ChainState<H, P>, step: Step<H, P::Error>|
        {
            &&& #[trigger] Operation::ClearSurface.starts(state, state.context_id, started, step)
            &&& leads_to(started, step, dialogue, end, result)
        };
    assert(state.doomed =~= seq![]);
    let d0 = dialogue;
    let (s1, t1) = turn(s0, t0, d0, end, result);
    let d1 = d0.drop_first();
    let (s2, t2) = turn(s1, t1, d1, end, result);
    assert(d1[0] == d0[1]);
    if t2 is Ask {
        let d2 = d1.drop_first();
        let (s3, t3) = turn(s2, t2, d2, end, result);
        assert(d2[0] == d0[2]);
        if t3 is Ask {
            let d3 = d2.drop_first();
            let (s4, t4) = turn(s3, t3, d3, end, result);
            let d4 = d3.drop_first();
            let (s5, t5) = turn(s4, t4, d4, end, result);
            let d5 = d4.drop_first();
            let (s6, t6) = turn(s5, t5, d5, end, result);
            assert(d3[0] == d0[3] && d4[0] == d0[4] && d5[0] == d0[5]);
            if t6 is Ask {
                let d6 = d5.drop_first();
                let (s7, t7) = turn(s6, t6, d6, end, result);
                assert(d6[0] == d0[6]);
                if t7 is Ask {
                    let d7 = d6.drop_first();
                    let (s8, t8) = turn(s7, t7, d7, end, result);
                    assert(d7[0] == d0[7]);
                }
            }
        }
    }
}

/// Destroying a swap chain has its surfaces destroyed, one by one: the back buffer, unless the
/// context has it; the front buffer, if no consumer took it; and those that wait for reuse, in the
/// order in which they were handed back. Nothing is left of what was reached, nor of what comes
/// after it.
pub proof fn destructions_go_by_the_script<H, E>(
    state: SurfmanChain<H, E>,
    dialogue: Seq<Exchange<H, E>>,
    end: SurfmanChain<H, E>,
    result: Result<(), Error<E>>,
)
    requires
        state.at_rest(),
        Operation::Destroy.runs(state, state.context_id, dialogue, end, result),
    ensures
        concluded(dialogue, result),
        ({
            let back = match state.unattached {
                Some(surface) => seq![surface],
                None => seq![],
            };
            let front = match state.provider@.pending {
                Some(surface) => seq![surface],
                None => seq![],
            };
            destroys(dialogue, back + front + state.provider@.recycled, result)
        }),
        end.unattached is None,
        if state.unattached is Some && dialogue.len() == 1 && result is Err {
            end.provider@ == state.provider@
        } else {
            &&& end.provider@.pending is None
            &&& end.provider@.recycled.len() == 0
            &&& end.provider@.access == state.provider@.access
        },
        end.size == state.size,
        end.context_id == state.context_id,
        end.stage is Idle,
        end.doomed.len() == 0,
{
    let (started, step) = choose|started: SurfmanChain<H, E>, step: Step<H, E>|
        {
            &&& #[trigger] Operation::Destroy.starts(state, state.context_id, started, step)
            &&& leads_to(started, step, dialogue, end, result)
        };
    let front = match state.provider@.pending {
        Some(surface) => seq![surface],
        None => seq![],
    };
    let released = state.provider@.all_surfaces();
    assert(released =~= front + state.provider@.recycled);
    if let Some(surface) = state.unattached {
        let all = seq![surface] + front + state.provider@.recycled;
        let (next, next_step) = turn(started, step, dialogue, end, result);
        let rest = dialogue.drop_first();
        if failure(dialogue[0].1) is None {
            let middle = ChainState { provider: next.provider, doomed: released, ..started };
            assert(middle.destroys_next(next, next_step));
            destroying_goes_on(middle, next, next_step, rest, end, result);
            concluded_later(dialogue, result);
            assert forall|i: int| 0 <= i < dialogue.len() implies (#[trigger] dialogue[i]).0 == (
            Request::<H>::DestroySurface { surface: all[i] }) by {
                if i > 0 {
                    assert(rest[i - 1] == dialogue[i]);
                    assert(all[i] == released[i - 1]);
                }
            }
        }
    } else {
        let middle = ChainState { provider: started.provider, doomed: released, ..state };
        assert(middle.destroys_next(started, step));
        destroying_goes_on(middle, started, step, dialogue, end, result);
        assert(Seq::<Surface<H>>::empty() + front + state.provider@.recycled =~= released);
    }
}

/// Taking the attachment unbinds the surface of the other swap chain, and binds that of this one.
/// The other swap chain gets what was unbound, also if the device cannot bind the surface of this
/// one.
pub proof fn attachments_go_by_the_script<H, P: SurfaceProvider<H>, Q: SurfaceProvider<H>>(
    state: ChainState<H, P>,
    surface: Surface<H>,
    other: ChainState<H, Q>,
    dialogue: Seq<Exchange<H, P::Error>>,
    end: ChainState<H, P>,
    other_end: ChainState<H, Q>,
    result: Result<(), Error<P::Error>>,
)
    requires
        state.at_rest(),
        attachment_runs(
            state,
            other,
            state.context_id,
            dialogue,
            end,
            other_end,
            result,
        ),
        other.context_id == state.context_id,
        state.unattached == Some(surface),
        other.unattached is None,
    ensures
        concluded(dialogue, result),
        dialogue.len() > 0,
        dialogue[0].0 == Request::<H>::UnbindSurface,
        match dialogue[0].1 {
            Reply::Unbound(Err(_)) => {
                &&& dialogue.len() == 1
                &&& end == state
                &&& other_end == other
            },
            Reply::Unbound(Ok(Some(detached))) => {
                &&& dialogue.len() == 2
                &&& dialogue[1].0 == Request::<H>::BindSurface { surface }
                &&& end == ChainState { unattached: None, ..state }
                &&& other_end == ChainState { unattached: Some(detached), ..other }
            },
            _ => false,
        },
{
    reveal_with_fuel(attachment_leads_to, 4);
    assert(state.doomed =~= seq![]);
}

/// Whether `dialogue` is the rest of an operation whose backend answered `released`: the released
/// surfaces are destroyed, or the operation fails with the error of the backend.
pub open spec fn follows<H, E>(
    released: Result<Seq<Surface<H>>, E>,
    dialogue: Seq<Exchange<H, E>>,
    result: Result<(), Error<E>>,
) -> bool {
    match released {
        Ok(surfaces) => {
            &&& destroys(dialogue, surfaces, result)
            &&& concluded(dialogue, result)
        },
        Err(error) => {
            &&& dialogue.len() == 0
            &&& result == Err::<(), Error<E>>(Error::Refused(error))
        },
    }
}

/// Whether `dialogue` is the rest of a swap that tells its backend, in the state `provider`, of the
/// new front buffer `front`.
pub open spec fn announced<H, P: SurfaceProvider<H>>(
    provider: P,
    context_id: ContextID,
    front: Surface<H>,
    dialogue: Seq<Exchange<H, P::Error>>,
    end: ChainState<H, P>,
    result: Result<(), Error<P::Error>>,
) -> bool {
    exists|released: Result<Seq<Surface<H>>, P::Error>|
        {
            &&& #[trigger] P::front_buffer_set(
                provider,
                context_id,
                front,
                end.provider,
                released,
            )
            &&& follows(released, dialogue, result)
        }
}

/// Whether `dialogue` is the rest of a swap that has its new back buffer `back`, with the backend
/// in the state `provider`.
pub open spec fn exchange_with<H, P: SurfaceProvider<H>>(
    state: ChainState<H, P>,
    provider: P,
    back: Surface<H>,
    dialogue: Seq<Exchange<H, P::Error>>,
    end: ChainState<H, P>,
    result: Result<(), Error<P::Error>>,
) -> bool {
    match state.unattached {
        Some(front) => {
            &&& end.unattached == Some(back)
            &&& announced(provider, state.context_id, front, dialogue, end, result)
        },
        None => {
            &&& end.unattached is None
            &&& dialogue.len() > 0
            &&& dialogue[0].0 == Request::<H>::UnbindSurface
            &&& match dialogue[0].1 {
                Reply::Unbound(Err(error)) => {
                    &&& dialogue.len() == 1
                    &&& end.provider == provider
                    &&& result == Err::<(), Error<P::Error>>(Error::Refused(error))
                },
                Reply::Unbound(Ok(Some(front))) => {
                    &&& dialogue.len() > 1
                    &&& dialogue[1].0 == Request::<H>::BindSurface { surface: back }
                    &&& match dialogue[1].1 {
                        Reply::Bound(Err(error)) => {
                            &&& dialogue.len() == 2
                            &&& end.provider == provider
                            &&& result == Err::<(), Error<P::Error>>(Error::Refused(error))
                        },
                        Reply::Bound(Ok(_)) => announced(
                            provider,
                            state.context_id,
                            front,
                            dialogue.skip(2),
                            end,
                            result,
                        ),
                        _ => false,
                    }
                },
                _ => false,
            }
        },
    }
}

proof fn announcing_goes_on<H, P: SurfaceProvider<H>>(
    state: ChainState<H, P>,
    front: Surface<H>,
    after: ChainState<H, P>,
    step: Step<H, P::Error>,
    dialogue: Seq<Exchange<H, P::Error>>,
    end: ChainState<H, P>,
    result: Result<(), Error<P::Error>>,
)
    requires
        state.presents(front, after, step),
        leads_to(after, step, dialogue, end, result),
    ensures
        announced(state.provider, state.context_id, front, dialogue, end, result),
        end.unattached == state.unattached,
        end.size == state.size,
        end.context_id == state.context_id,
{
    let released = choose|released: Result<Seq<Surface<H>>, P::Error>|
        {
            &&& #[trigger] P::front_buffer_set(
                state.provider,
                state.context_id,
                front,
                after.provider,
                released,
            )
            &&& state.destroys(released, after, step)
        };
    releasing_goes_on(state, released, after, step, dialogue, end, result);
    assert(P::front_buffer_set(
        state.provider,
        state.context_id,
        front,
        end.provider,
        released,
    ));
}

proof fn releasing_goes_on<H, P: SurfaceProvider<H>>(
    state: ChainState<H, P>,
    released: Result<Seq<Surface<H>>, P::Error>,
    after: ChainState<H, P>,
    step: Step<H, P::Error>,
    dialogue: Seq<Exchange<H, P::Error>>,
    end: ChainState<H, P>,
    result: Result<(), Error<P::Error>>,
)
    requires
        state.destroys(released, after, step),
        leads_to(after, step, dialogue, end, result),
    ensures
        follows(released, dialogue, result),
        end == (ChainState { provider: after.provider, ..state.stopped() }),
{
    if let Ok(surfaces) = released {
        let middle = ChainState { provider: after.provider, doomed: surfaces, ..state };
        destroying_goes_on(middle, after, step, dialogue, end, result);
    }
}

proof fn exchanging_with_goes_on<H, P: SurfaceProvider<H>>(
    state: ChainState<H, P>,
    back: Surface<H>,
    after: ChainState<H, P>,
    step: Step<H, P::Error>,
    dialogue: Seq<Exchange<H, P::Error>>,
    end: ChainState<H, P>,
    result: Result<(), Error<P::Error>>,
)
    requires
        state.exchanges(back, after, step),
        leads_to(after, step, dialogue, end, result),
    ensures
        exchange_with(state, state.provider, back, dialogue, end, result),
        end.size == state.size,
        end.context_id == state.context_id,
{
    if let Some(front) = state.unattached {
        let replaced = ChainState { unattached: Some(back), ..state };
        announcing_goes_on(replaced, front, after, step, dialogue, end, result);
    } else {
        let (unbound, unbound_step) = turn(after, step, dialogue, end, result);
        let rest = dialogue.drop_first();
        if failure(dialogue[0].1) is None {
            let (bound, bound_step) = turn(unbound, unbound_step, rest, end, result);
            let tail = rest.drop_first();
            assert(tail =~= dialogue.skip(2));
            assert(rest[0] == dialogue[1]);
            if failure(rest[0].1) is None {
                let front = dialogue[0].1->Unbound_0->Ok_0->0;
                announcing_goes_on(unbound, front, bound, bound_step, tail, end, result);
            }
        }
    }
}

/// A swap tells its backend, whatever it is, to recycle the front buffer, then asks it for a
/// surface of the size of the swap chain, and at last tells it of the new front buffer, each time
/// with the producer context of the swap chain. It uses the surface that the backend provides, or asks the
/// device for one just as the backend says. If the backend refuses, the swap fails with its error.
pub proof fn swaps_ask_the_backend<H, P: SurfaceProvider<H>>(
    state: ChainState<H, P>,
    dialogue: Seq<Exchange<H, P::Error>>,
    end: ChainState<H, P>,
    result: Result<(), Error<P::Error>>,
)
    requires
        state.at_rest(),
        Operation::SwapBuffers.runs(state, state.context_id, dialogue, end, result),
    ensures
        end.size == state.size,
        end.context_id == state.context_id,
        exists|recycled: P, provider: P, provision: Provision<H, P::Error>|
            {
                &&& #[trigger] P::front_buffer_recycled(
                    state.provider,
                    state.context_id,
                    recycled,
                )
                &&& #[trigger] P::surface_provided(
                    recycled,
                    state.context_id,
                    state.size,
                    provider,
                    provision,
                )
                &&& match provision {
                    Provision::Recycled { surface } => exchange_with(
                        state,
                        provider,
                        surface,
                        dialogue,
                        end,
                        result,
                    ),
                    Provision::Create { access, size } => {
                        &&& dialogue.len() > 0
                        &&& dialogue[0].0 == Request::<H>::CreateSurface { access, size }
                        &&& match dialogue[0].1 {
                            Reply::Created(Ok(back)) => exchange_with(
                                state,
                                provider,
                                back,
                                dialogue.drop_first(),
                                end,
                                result,
                            ),
                            Reply::Created(Err(error)) => {
                                &&& dialogue.len() == 1
                                &&& end.provider == provider
                                &&& end.unattached == state.unattached
                                &&& result == Err::<(), Error<P::Error>>(Error::Refused(error))
                            },
                            _ => false,
                        }
                    },
                    Provision::Refused { error } => {
                        &&& dialogue.len() == 0
                        &&& end.provider == provider
                        &&& end.unattached == state.unattached
                        &&& result == Err::<(), Error<P::Error>>(Error::Refused(error))
                    },
                }
            },
{
    let (started, step) = choose|started: ChainState<H, P>, step: Step<H, P::Error>|
        {
            &&& #[trigger] Operation::SwapBuffers.starts(
                state,
                state.context_id,
                started,
                step,
            )
            &&& leads_to(started, step, dialogue, end, result)
        };
    let (recycled, provider, provision) = choose|
        recycled: P,
        provider: P,
        provision: Provision<H, P::Error>,
    |
        {
            &&& #[trigger] P::front_buffer_recycled(state.provider, state.context_id, recycled)
            &&& #[trigger] P::surface_provided(
                recycled,
                state.context_id,
                state.size,
                provider,
                provision,
            )
            &&& match provision {
                Provision::Recycled { surface } => (ChainState { provider, ..state }).exchanges(
                    surface,
                    started,
                    step,
                ),
                Provision::Create { access, size } => {
                    &&& started == ChainState { provider, stage: Stage::SwapCreating, ..state }
                    &&& step == Step::<H, P::Error>::Ask(Request::CreateSurface { access, size })
                },
                Provision::Refused { error } => {
                    &&& started == ChainState { provider, ..state }
                    &&& step == Step::<H, P::Error>::Done(Err(Error::Refused(error)))
                },
            }
        };
    let fed = ChainState { provider, ..state };
    match provision {
        Provision::Recycled { surface } => {
            exchanging_with_goes_on(fed, surface, started, step, dialogue, end, result);
            assert(exchange_with(state, provider, surface, dialogue, end, result));
        },
        Provision::Create { access, size } => {
            let (created, created_step) = turn(started, step, dialogue, end, result);
            if failure(dialogue[0].1) is None {
                let back = dialogue[0].1->Created_0->Ok_0;
                let rest = dialogue.drop_first();
                exchanging_with_goes_on(
                    started,
                    back,
                    created,
                    created_step,
                    rest,
                    end,
                    result,
                );
                assert(exchange_with(state, provider, back, rest, end, result));
            }
        },
        Provision::Refused { error } => {},
    }
}

/// A resize asks its backend, whatever it is, for a surface of the new size, once. It uses the
/// surface that the backend provides, or asks the device for one just as the backend says. If the
/// backend refuses, the resize fails with its error, and changes nothing else.
pub proof fn resizes_ask_the_backend<H, P: SurfaceProvider<H>>(
    state: ChainState<H, P>,
    size: Size2D,
    dialogue: Seq<Exchange<H, P::Error>>,
    end: ChainState<H, P>,
    result: Result<(), Error<P::Error>>,
)
    requires
        state.at_rest(),
        (Operation::Resize { size }).runs(state, state.context_id, dialogue, end, result),
        size.width > 0 && size.height > 0,
    ensures
        exists|provision: Provision<H, P::Error>|
            {
                &&& #[trigger] P::sized_surface_created(
                    state.provider,
                    size,
                    end.provider,
                    provision,
                )
                &&& match provision {
                    Provision::Recycled { surface } => {
                        &&& dialogue.len() > 0
                        &&& state.unattached matches Some(old_back) ==> {
                            &&& dialogue.len() == 1
                            &&& dialogue[0].0 == Request::<H>::DestroySurface {
                                surface: old_back,
                            }
                            &&& end.unattached == Some(surface)
                        }
                        &&& state.unattached is None ==> {
                            &&& dialogue[0].0 == Request::<H>::UnbindSurface
                            &&& failure(dialogue[0].1) is None ==> {
                                &&& dialogue.len() > 1
                                &&& dialogue[1].0 == Request::<H>::BindSurface { surface }
                            }
                        }
                    },
                    Provision::Create { access, size: asked } => {
                        &&& dialogue.len() > 0
                        &&& dialogue[0].0 == Request::<H>::CreateSurface { access, size: asked }
                    },
                    Provision::Refused { error } => {
                        &&& dialogue.len() == 0
                        &&& end == ChainState { provider: end.provider, ..state }
                        &&& result == Err::<(), Error<P::Error>>(Error::Refused(error))
                    },
                }
            },
        end.size == if result is Ok {
            size
        } else {
            state.size
        },
{
    let (s0, t0) = choose|started: ChainState<H, P>, step: Step<H, P::Error>|
        {
            &&& #[trigger] (Operation::Resize { size }).starts(
                state,
                state.context_id,
                started,
                step,
            )
            &&& leads_to(started, step, dialogue, end, result)
        };
    let (provider, provision) = choose|provider: P, provision: Provision<H, P::Error>|
        {
            &&& #[trigger] P::sized_surface_created(state.provider, size, provider, provision)
            &&& match provision {
                Provision::Recycled { surface } => (ChainState { provider, ..state }).resizes(
                    size,
                    surface,
                    s0,
                    t0,
                ),
                Provision::Create { access, size: asked } => {
                    &&& s0 == ChainState {
                        provider,
                        stage: Stage::ResizeCreating { size },
                        ..state
                    }
                    &&& t0 == Step::<H, P::Error>::Ask(
                        Request::CreateSurface { access, size: asked },
                    )
                },
                Provision::Refused { error } => {
                    &&& s0 == ChainState { provider, ..state }
                    &&& t0 == Step::<H, P::Error>::Done(Err(Error::Refused(error)))
                },
            }
        };
    let d0 = dialogue;
    if t0 is Ask {
        let (s1, t1) = turn(s0, t0, d0, end, result);
        if t1 is Ask {
            let d1 = d0.drop_first();
            let (s2, t2) = turn(s1, t1, d1, end, result);
            assert(d1[0] == d0[1]);
            if t2 is Ask {
                let d2 = d1.drop_first();
                let (s3, t3) = turn(s2, t2, d2, end, result);
                if t3 is Ask {
                    let d3 = d2.drop_first();
                    let (s4, t4) = turn(s3, t3, d3, end, result);
                }
            }
        }
    }
    assert(end.provider == provider);
    assert(P::sized_surface_created(state.provider, size, end.provider, provision));
}

/// Destroying a swap chain has its backend, whatever it is, release its surfaces, once the back
/// buffer is destroyed. They are destroyed, first to last. If the backend refuses, the destruction
/// fails with its error.
pub proof fn destructions_ask_the_backend<H, P: SurfaceProvider<H>>(
    state: ChainState<H, P>,
    dialogue: Seq<Exchange<H, P::Error>>,
    end: ChainState<H, P>,
    result: Result<(), Error<P::Error>>,
)
    requires
        state.at_rest(),
        Operation::Destroy.runs(state, state.context_id, dialogue, end, result),
    ensures
        end.unattached is None,
        state.unattached matches Some(back) ==> {
            &&& dialogue.len() > 0
            &&& dialogue[0].0 == Request::<H>::DestroySurface { surface: back }
        },
        if state.unattached is Some && failure(dialogue[0].1) is Some {
            &&& dialogue.len() == 1
            &&& end.provider == state.provider
            &&& result == Err::<(), Error<P::Error>>(
                Error::Refused(failure(dialogue[0].1)->0),
            )
        } else {
            exists|released: Result<Seq<Surface<H>>, P::Error>|
                {
                    &&& #[trigger] P::all_surfaces_released(
                        state.provider,
                        end.provider,
                        released,
                    )
                    &&& follows(
                        released,
                        if state.unattached is Some {
                            dialogue.drop_first()
                        } else {
                            dialogue
                        },
                        result,
                    )
                }
        },
{
    let (started, step) = choose|started: ChainState<H, P>, step: Step<H, P::Error>|
        {
            &&& #[trigger] Operation::Destroy.starts(state, state.context_id, started, step)
            &&& leads_to(started, step, dialogue, end, result)
        };
    if state.unattached is Some {
        let (next, next_step) = turn(started, step, dialogue, end, result);
        if failure(dialogue[0].1) is None {
            release_goes_on(started, next, next_step, dialogue.drop_first(), end, result);
        }
    } else {
        release_goes_on(state, started, step, dialogue, end, result);
    }
}

proof fn release_goes_on<H, P: SurfaceProvider<H>>(
    state: ChainState<H, P>,
    after: ChainState<H, P>,
    step: Step<H, P::Error>,
    dialogue: Seq<Exchange<H, P::Error>>,
    end: ChainState<H, P>,
    result: Result<(), Error<P::Error>>,
)
    requires
        state.releases(after, step),
        leads_to(after, step, dialogue, end, result),
    ensures
        end.unattached == state.unattached,
        exists|released: Result<Seq<Surface<H>>, P::Error>|
            {
                &&& #[trigger] P::all_surfaces_released(state.provider, end.provider, released)
                &&& follows(released, dialogue, result)
            },
{
    let released = choose|released: Result<Seq<Surface<H>>, P::Error>|
        {
            &&& #[trigger] P::all_surfaces_released(state.provider, after.provider, released)
            &&& state.destroys(released, after, step)
        };
    releasing_goes_on(state, released, after, step, dialogue, end, result);
    assert(P::all_surfaces_released(state.provider, end.provider, released));
}

} // verus!
