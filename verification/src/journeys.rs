//! What becomes of surfaces over several calls.

use vstd::prelude::*;

use crate::chain::{ChainState, SwapChain};
use crate::device::{Reply, Request, Step};
use crate::dialogue::{
    back_buffer, bound_after, leads_to, truthful, Exchange, Operation, SurfmanChain,
};
use crate::outcomes::{rest_creates_nothing, swap_presents_the_back_buffer, swaps_recycle};
use crate::provider::{SurfaceProvider, SurfmanProvider};
use crate::scripts::{
    attached_clears_go_by_the_script, concluded, destructions_go_by_the_script,
    detached_clears_go_by_the_script, failure, reusable, swaps_create_what_is_missing,
    swaps_reuse_the_first_that_fits,
};
use crate::supply::recycling_keeps_the_front_buffer;
use crate::surface::{ContextID, Error, Size2D, Surface};
use crate::turns::{consumers_hand_surfaces_back, consumers_take_the_front_buffer};

verus! {

/// The frame that a swap presents is what the next consumer takes, however many surfaces consumers
/// hand back in between; those wait for reuse, and so they still do afterwards.
pub proof fn presented_frames_reach_the_consumer<H, E>(
    state: SurfmanChain<H, E>,
    bound: Option<Surface<H>>,
    dialogue: Seq<Exchange<H, E>>,
    end: SurfmanChain<H, E>,
    providers: Seq<SurfmanProvider<H, E>>,
    handed_back: Seq<Surface<H>>,
    chain: &mut SwapChain<H, SurfmanProvider<H, E>>,
    taken: Option<Surface<H>>,
)
    requires
        state.at_rest(),
        Operation::SwapBuffers.runs(state, state.context_id, dialogue, end, Ok(())),
        truthful(bound, dialogue),
        providers.len() == handed_back.len() + 1,
        providers[0] == end.provider,
        forall|i: int|
            0 <= i < handed_back.len() ==> SurfmanProvider::surface_recycled(
                providers[i],
                #[trigger] handed_back[i],
                providers[i + 1],
            ),
        old(chain)@.provider == providers.last(),
        call_ensures(SwapChain::<H, SurfmanProvider<H, E>>::take_surface, (chain,), taken),
    ensures
        taken is Some,
        taken == match state.unattached {
            Some(surface) => Some(surface),
            None => bound,
        },
        final(chain)@.provider@.pending is None,
        final(chain)@.provider@.recycled == handed_back,
{
    swap_presents_the_back_buffer(state, state.context_id, bound, dialogue, end);
    let front = back_buffer(state, bound)->0;
    swap_leaves_a_front_buffer(state, dialogue, end);
    recycling_keeps_the_front_buffer(providers, handed_back, front);
    consumers_take_the_front_buffer(chain, taken);
    assert(final(chain)@.provider@.recycled =~= handed_back);
}

/// A swap that succeeds leaves a pending front buffer, and nothing that waits for reuse.
pub proof fn swap_leaves_a_front_buffer<H, E>(
    state: SurfmanChain<H, E>,
    dialogue: Seq<Exchange<H, E>>,
    end: SurfmanChain<H, E>,
)
    requires
        state.at_rest(),
        Operation::SwapBuffers.runs(state, state.context_id, dialogue, end, Ok(())),
    ensures
        end.provider@.pending is Some,
        end.provider@.recycled.len() == 0,
        end.provider@.access == state.provider@.access,
{
    let surfaces = reusable(state.provider@);
    if exists|i: int| 0 <= i < surfaces.len() && (#[trigger] surfaces[i]).size == state.size {
        let any = choose|i: int|
            0 <= i < surfaces.len() && (#[trigger] surfaces[i]).size == state.size;
        let first = first_fit(surfaces, state.size, any);
        swaps_reuse_the_first_that_fits(state, first, dialogue, end, Ok(()));
        last_answer(dialogue);
    } else {
        swaps_create_what_is_missing(state, dialogue, end, Ok(()));
        last_answer(dialogue);
        last_answer(dialogue.drop_first());
    }
}

/// In a dialogue that leads to success no answer carries an error.
proof fn last_answer<H, E>(dialogue: Seq<Exchange<H, E>>)
    ensures
        concluded(dialogue, Ok(())) ==> forall|i: int|
            0 <= i < dialogue.len() ==> failure((#[trigger] dialogue[i]).1) is None,
{
    if concluded(dialogue, Ok(())) && dialogue.len() > 0 {
        assert(dialogue.last() == dialogue[dialogue.len() - 1]);
    }
}

/// The first surface of a size, if there is one.
proof fn first_fit<H>(surfaces: Seq<Surface<H>>, size: Size2D, any: int) -> (first: int)
    requires
        0 <= any < surfaces.len(),
        surfaces[any].size == size,
    ensures
        0 <= first < surfaces.len(),
        surfaces[first].size == size,
        forall|i: int| 0 <= i < first ==> (#[trigger] surfaces[i]).size != size,
    decreases any,
{
    if exists|i: int| 0 <= i < any && (#[trigger] surfaces[i]).size == size {
        let earlier = choose|i: int| 0 <= i < any && (#[trigger] surfaces[i]).size == size;
        first_fit(surfaces, size, earlier)
    } else {
        any
    }
}

/// A surface that a consumer hands back, of the size of the swap chain, spares the next swap a new
/// surface: the device is asked for none, whatever else the swap comes to.
pub proof fn handed_back_surfaces_spare_a_new_one<H, E>(
    chain: &mut SwapChain<H, SurfmanProvider<H, E>>,
    surface: Surface<H>,
    context_id: ContextID,
    dialogue: Seq<Exchange<H, E>>,
    end: SurfmanChain<H, E>,
    result: Result<(), Error<E>>,
)
    requires
        call_ensures(
            SwapChain::<H, SurfmanProvider<H, E>>::recycle_surface,
            (chain, surface),
            (),
        ),
        surface.size == old(chain)@.size,
        Operation::SwapBuffers.runs(final(chain)@, context_id, dialogue, end, result),
    ensures
        forall|i: int| 0 <= i < dialogue.len() ==> (#[trigger] dialogue[i]).0 !is CreateSurface,
{
    consumers_hand_surfaces_back(chain, surface);
    let state = final(chain)@;
    let all = state.provider@.all_surfaces();
    assert(all[all.len() - 1] == surface);
    swaps_recycle(state, context_id, surface, dialogue, end, result);
}

/// A surface that a consumer hands back is destroyed with the swap chain, last of all.
pub proof fn handed_back_surfaces_are_destroyed<H, E>(
    chain: &mut SwapChain<H, SurfmanProvider<H, E>>,
    surface: Surface<H>,
    dialogue: Seq<Exchange<H, E>>,
    end: SurfmanChain<H, E>,
)
    requires
        call_ensures(
            SwapChain::<H, SurfmanProvider<H, E>>::recycle_surface,
            (chain, surface),
            (),
        ),
        final(chain)@.at_rest(),
        Operation::Destroy.runs(
            final(chain)@,
            final(chain)@.context_id,
            dialogue,
            end,
            Ok(()),
        ),
    ensures
        dialogue.len() > 0,
        dialogue.last().0 == (Request::<H>::DestroySurface { surface }),
{
    consumers_hand_surfaces_back(chain, surface);
    destructions_go_by_the_script(final(chain)@, dialogue, end, Ok(()));
}

/// Whenever a swap or a resize asks the device for a surface, that is the first thing it asks, and
/// the surface is to have the access mode of the backend, and the size of the swap chain, or the
/// new size.
pub proof fn new_surfaces_are_of_the_right_kind<H, E>(
    operation: Operation,
    state: SurfmanChain<H, E>,
    context_id: ContextID,
    dialogue: Seq<Exchange<H, E>>,
    end: SurfmanChain<H, E>,
    result: Result<(), Error<E>>,
    index: int,
)
    requires
        state.at_rest(),
        operation.runs(state, context_id, dialogue, end, result),
        0 <= index < dialogue.len(),
        dialogue[index].0 is CreateSurface,
    ensures
        index == 0,
        operation is SwapBuffers || operation is Resize,
        dialogue[0].0 == (Request::<H>::CreateSurface {
            access: state.provider@.access,
            size: match operation {
                Operation::Resize { size } => size,
                _ => state.size,
            },
        }),
{
    let (started, step) = choose|started: SurfmanChain<H, E>, step: Step<H, E>|
        {
            &&& #[trigger] operation.starts(state, context_id, started, step)
            &&& leads_to(started, step, dialogue, end, result)
        };
    if step is Ask && step->Ask_0 is CreateSurface {
        let rest = dialogue.drop_first();
        let (next, next_step) = choose|next: SurfmanChain<H, E>, next_step: Step<H, E>|
            {
                &&& #[trigger] started.resumes(dialogue[0].1, next, next_step)
                &&& leads_to(next, next_step, rest, end, result)
            };
        rest_creates_nothing(next, next_step, rest, end, result);
        if index > 0 {
            assert(rest[index - 1] == dialogue[index]);
        }
    } else {
        rest_creates_nothing(started, step, dialogue, end, result);
    }
}

/// In a clear, whatever it comes to, a framebuffer is cleared only right after the device reported
/// it as that of the current surface, and it is that one. If the device answers truly, the current
/// surface is the back buffer of the swap chain then.
pub proof fn only_the_reported_framebuffer_is_cleared<H, P: SurfaceProvider<H>>(
    state: ChainState<H, P>,
    bound: Option<Surface<H>>,
    dialogue: Seq<Exchange<H, P::Error>>,
    end: ChainState<H, P>,
    result: Result<(), Error<P::Error>>,
    index: int,
)
    requires
        state.at_rest(),
        Operation::ClearSurface.runs(state, state.context_id, dialogue, end, result),
        truthful(bound, dialogue),
        0 <= index < dialogue.len(),
        dialogue[index].0 is Clear,
    ensures
        index > 0,
        dialogue[index - 1].0 == Request::<H>::FindFramebuffer,
        dialogue[index - 1].1 == Reply::<H, P::Error>::Framebuffer(
            dialogue[index].0->framebuffer,
        ),
        bound_after(bound, dialogue.take(index - 1)) == match state.unattached {
            Some(surface) => Some(surface),
            None => bound,
        },
{
    reveal_with_fuel(bound_after, 5);
    if let Some(back) = state.unattached {
        detached_clears_go_by_the_script(state, back, dialogue, end, result);
        assert(index == 4);
        let before = dialogue.take(3);
        assert(before.drop_first()[0] == dialogue[1]);
        assert(before.drop_first().drop_first()[0] == dialogue[2]);
        assert(failure(dialogue[2].1) is None);
        assert(dialogue[2].1 is Bound) by {
            bound_answers(state, back, dialogue, end, result);
        }
    } else {
        attached_clears_go_by_the_script(state, dialogue, end, result);
        assert(index == 2);
        assert(dialogue.take(1).drop_first().len() == 0);
    }
}

proof fn bound_answers<H, P: SurfaceProvider<H>>(
    state: ChainState<H, P>,
    back: Surface<H>,
    dialogue: Seq<Exchange<H, P::Error>>,
    end: ChainState<H, P>,
    result: Result<(), Error<P::Error>>,
)
    requires
        state.at_rest(),
        Operation::ClearSurface.runs(state, state.context_id, dialogue, end, result),
        state.unattached == Some(back),
        dialogue.len() > 2,
    ensures
        dialogue[2].1 is Bound,
{
    reveal_with_fuel(leads_to, 4);
    let rest = dialogue.drop_first().drop_first();
    assert(rest[0] == dialogue[2]);
}

/// An operation can be called whenever none is running.
pub proof fn idle_chains_can_be_used<H, P: SurfaceProvider<H>>(
    chain: &mut SwapChain<H, P>,
    context_id: ContextID,
    size: Size2D,
    other: &SwapChain<H, P>,
)
    requires
        old(chain)@.stage is Idle,
        old(chain)@.doomed.len() == 0,
    ensures
        call_requires(SwapChain::<H, P>::swap_buffers, (chain, context_id)),
        call_requires(SwapChain::<H, P>::resize, (chain, context_id, size)),
        call_requires(SwapChain::<H, P>::clear_surface, (chain, context_id)),
        call_requires(SwapChain::<H, P>::destroy, (chain, context_id)),
        call_requires(
            SwapChain::<H, P>::take_attachment_from::<P>,
            (chain, context_id, other),
        ),
{
}

} // verus!
