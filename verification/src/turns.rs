//! What each call of a function of a swap chain does.
//!
//! The laws speak of calls: of the swap chain before and after a call, and of what the call
//! returns. The calls that start an operation, and those that go on with it, are the turns that
//! [`crate::dialogue`] puts together.

use vstd::prelude::*;

use crate::accounts::pooled;
use crate::chain::{ChainState, Creation, PendingChain, Stage, SwapChain};
use crate::device::{Reply, Request, Step};
use crate::dialogue::Operation;
use crate::provider::{Provision, SurfaceProvider, SurfmanProvider};
use crate::supply::filled_up;
use crate::surface::{ContextID, Error, Size2D, Surface};

verus! {

/// A call of an operation starts it.
pub proof fn calls_start_operations<H, P: SurfaceProvider<H>>(
    operation: Operation,
    chain: &mut SwapChain<H, P>,
    context_id: ContextID,
    step: Step<H, P::Error>,
)
    requires
        match operation {
            Operation::SwapBuffers => call_ensures(
                SwapChain::<H, P>::swap_buffers,
                (chain, context_id),
                step,
            ),
            Operation::Resize { size } => call_ensures(
                SwapChain::<H, P>::resize,
                (chain, context_id, size),
                step,
            ),
            Operation::ClearSurface => call_ensures(
                SwapChain::<H, P>::clear_surface,
                (chain, context_id),
                step,
            ),
            Operation::Destroy => call_ensures(
                SwapChain::<H, P>::destroy,
                (chain, context_id),
                step,
            ),
        },
    ensures
        operation.starts(old(chain)@, context_id, final(chain)@, step),
{
}

/// An answer that is handed to a swap chain takes the running operation one turn further.
pub proof fn answers_are_turns<H, P: SurfaceProvider<H>>(
    chain: &mut SwapChain<H, P>,
    reply: Reply<H, P::Error>,
    step: Step<H, P::Error>,
)
    requires
        call_ensures(SwapChain::<H, P>::resume, (chain, reply), step),
    ensures
        old(chain)@.resumes(reply, final(chain)@, step),
{
}

/// A call starts to take the attachment.
pub proof fn calls_start_attachments<H, P: SurfaceProvider<H>, Q: SurfaceProvider<H>>(
    chain: &mut SwapChain<H, P>,
    context_id: ContextID,
    other: &SwapChain<H, Q>,
    step: Step<H, P::Error>,
)
    requires
        call_ensures(
            SwapChain::<H, P>::take_attachment_from::<Q>,
            (chain, context_id, other),
            step,
        ),
    ensures
        old(chain)@.attachment_starts(context_id, other@, final(chain)@, step),
{
}

/// An answer takes the attachment one turn further.
pub proof fn answers_are_turns_of_attachments<
    H,
    P: SurfaceProvider<H>,
    Q: SurfaceProvider<H>,
>(
    chain: &mut SwapChain<H, P>,
    other: &mut SwapChain<H, Q>,
    reply: Reply<H, P::Error>,
    step: Step<H, P::Error>,
)
    requires
        call_ensures(
            SwapChain::<H, P>::resume_attachment::<Q>,
            (chain, other, reply),
            step,
        ),
    ensures
        old(chain)@.attachment_resumes(
            old(other)@,
            reply,
            final(chain)@,
            final(other)@,
            step,
        ),
{
}

/// A new attached swap chain belongs to the producer context that it was made for, has the size of
/// its surface, and leaves that surface to the context. No operation is running.
pub proof fn attached_chains_leave_the_surface_to_the_context<H, P: SurfaceProvider<H>>(
    context_id: ContextID,
    size: Size2D,
    provider: P,
    created: Result<SwapChain<H, P>, Error<P::Error>>,
)
    requires
        call_ensures(
            SwapChain::<H, P>::create_attached,
            (context_id, size, provider),
            created,
        ),
    ensures
        created is Ok,
        created->Ok_0@.context_id == context_id,
        created->Ok_0@.size == size,
        created->Ok_0@.unattached is None,
        created->Ok_0@.provider == provider,
        created->Ok_0@.stage is Idle,
        created->Ok_0@.doomed.len() == 0,
{
}

/// Whether a new detached swap chain starts as it should. If surfaces of the size asked for wait
/// for reuse, the one that was handed back first is the back buffer. If none does, the device is
/// asked for one, of that very size and of the access mode of the backend; the swap chain waits for
/// it.
pub open spec fn starts_detached<H, E>(
    context_id: ContextID,
    provider: SurfmanProvider<H, E>,
    size: Size2D,
    creation: Result<Creation<H, SurfmanProvider<H, E>>, Error<E>>,
) -> bool {
    &&& creation is Ok
    &&& match creation->Ok_0 {
        Creation::Created { chain } => {
            &&& chain@.size == size
            &&& chain@.context_id == context_id
            &&& chain@.unattached is Some
            &&& chain@.unattached->0.size == size
            &&& chain@.stage is Idle
            &&& chain@.doomed.len() == 0
            &&& chain@.provider@.pending == provider@.pending
            &&& chain@.provider@.access == provider@.access
            &&& pooled(chain@.provider@).insert(chain@.unattached->0) == pooled(provider@)
            &&& forall|index: int|
                {
                    &&& 0 <= index < provider@.recycled.len()
                    &&& (#[trigger] provider@.recycled[index]).size == size
                    &&& forall|i: int|
                        0 <= i < index ==> (#[trigger] provider@.recycled[i]).size != size
                } ==> {
                    &&& chain@.unattached == Some(provider@.recycled[index])
                    &&& chain@.provider@.recycled == filled_up(provider@.recycled, index)
                }
        },
        Creation::NeedsSurface { access, size: asked, pending } => {
            &&& asked == size
            &&& access == provider@.access
            &&& forall|i: int|
                0 <= i < provider@.recycled.len() ==> (#[trigger] provider@.recycled[i]).size
                    != size
            &&& pending@.size == size
            &&& pending@.context_id == context_id
            &&& pending@.unattached is None
            &&& pending@.stage is Idle
            &&& pending@.doomed.len() == 0
            &&& pending@.provider@ == provider@
        },
    }
}

pub(crate) proof fn creation_starts_detached<H, E>(
    context_id: ContextID,
    provider: SurfmanProvider<H, E>,
    size: Size2D,
    creation: Result<Creation<H, SurfmanProvider<H, E>>, Error<E>>,
)
    requires
        crate::chain::creation_starts(context_id, provider, size, creation),
    ensures
        starts_detached(context_id, provider, size, creation),
{
    if let Ok(Creation::Created { chain }) = creation {
        let surface = chain@.unattached->0;
        let provision = Provision::<H, E>::Recycled { surface };
        crate::accounts::provided_multiset(provider@, size, chain@.provider@, provision);
        let recycled = provider@.recycled;
        let found = choose|found: int|
            {
                &&& #[trigger] crate::provider::is_first_of_size(recycled, size, found)
                &&& surface == recycled[found]
                &&& chain@.provider@ == crate::provider::SurfmanPool {
                    recycled: crate::provider::swap_removed(recycled, found),
                    ..provider@
                }
            };
        assert forall|index: int|
            {
                &&& 0 <= index < recycled.len()
                &&& (#[trigger] recycled[index]).size == size
                &&& forall|i: int| 0 <= i < index ==> (#[trigger] recycled[i]).size != size
            } implies {
            &&& chain@.unattached == Some(recycled[index])
            &&& chain@.provider@.recycled == filled_up(recycled, index)
        } by {
            assert(found == index) by {
                if index < found {
                    assert(recycled[index].size != size);
                } else if found < index {
                    assert(recycled[found].size != size);
                }
            }
            assert(chain@.provider@.recycled =~= filled_up(recycled, index));
        }
    }
}

/// A detached swap chain starts with a back buffer of the size that was asked for, which is its
/// size too.
pub proof fn detached_chains_have_the_size_asked_for<H, E>(
    context_id: ContextID,
    provider: SurfmanProvider<H, E>,
    size: Size2D,
    creation: Result<Creation<H, SurfmanProvider<H, E>>, Error<E>>,
)
    requires
        call_ensures(
            SwapChain::<H, SurfmanProvider<H, E>>::create_detached,
            (context_id, provider, size),
            creation,
        ),
    ensures
        starts_detached(context_id, provider, size, creation),
{
    creation_starts_detached(context_id, provider, size, creation);
}

/// The backend of a detached swap chain, whatever it is, is asked for one surface, for the producer
/// context and of the size of the swap chain. The swap chain has that surface, or asks the device
/// for it just as the backend says, or fails with the error of the backend.
pub proof fn creations_ask_the_backend<H, P: SurfaceProvider<H>>(
    context_id: ContextID,
    provider: P,
    size: Size2D,
    creation: Result<Creation<H, P>, Error<P::Error>>,
)
    requires
        call_ensures(
            SwapChain::<H, P>::create_detached,
            (context_id, provider, size),
            creation,
        ),
    ensures
        exists|after: P, provision: Provision<H, P::Error>|
            {
                &&& #[trigger] P::surface_provided(provider, context_id, size, after, provision)
                &&& match provision {
                    Provision::Recycled { surface } => {
                        &&& creation matches Ok(Creation::Created { chain })
                        &&& chain@.unattached == Some(surface)
                        &&& chain@.provider == after
                        &&& chain@.size == size && chain@.context_id == context_id
                    },
                    Provision::Create { access, size: asked } => {
                        &&& creation matches Ok(
                            Creation::NeedsSurface { access: mode, size: wanted, pending },
                        )
                        &&& mode == access && wanted == asked
                        &&& pending@.provider == after
                        &&& pending@.size == size && pending@.context_id == context_id
                    },
                    Provision::Refused { error } => creation == Err::<
                        Creation<H, P>,
                        Error<P::Error>,
                    >(Error::Refused(error)),
                }
            },
{
    match creation {
        Ok(Creation::Created { chain }) => {
            assert(P::surface_provided(
                provider,
                context_id,
                size,
                chain@.provider,
                Provision::Recycled { surface: chain@.unattached->0 },
            ));
        },
        Ok(Creation::NeedsSurface { access, size: asked, pending }) => {
            assert(P::surface_provided(
                provider,
                context_id,
                size,
                pending@.provider,
                Provision::Create { access, size: asked },
            ));
        },
        Err(error) => {},
    }
}

/// A detached swap chain that waited for its back buffer has what the device created, and is
/// otherwise as it was; if the device refused, there is no swap chain, and the error says why.
pub proof fn finished_chains_have_the_created_surface<H, P: SurfaceProvider<H>>(
    pending: PendingChain<H, P>,
    reply: Result<Surface<H>, P::Error>,
    result: Result<SwapChain<H, P>, Error<P::Error>>,
)
    requires
        call_ensures(PendingChain::<H, P>::finish, (pending, reply), result),
    ensures
        reply matches Ok(surface) ==> {
            &&& result is Ok
            &&& result->Ok_0@.unattached == Some(surface)
            &&& result->Ok_0@.size == pending@.size
            &&& result->Ok_0@.context_id == pending@.context_id
            &&& result->Ok_0@.provider == pending@.provider
            &&& result->Ok_0@.stage == pending@.stage
            &&& result->Ok_0@.doomed == pending@.doomed
        },
        reply matches Err(error) ==> result == Err::<SwapChain<H, P>, Error<P::Error>>(
            Error::Refused(error),
        ),
{
}

/// A consumer takes the front buffer of a swap chain, if one is pending, whatever else waits for
/// reuse; else the surface that was handed back last. Nothing else changes.
pub proof fn consumers_take_the_front_buffer<H, E>(
    chain: &mut SwapChain<H, SurfmanProvider<H, E>>,
    taken: Option<Surface<H>>,
)
    requires
        call_ensures(SwapChain::<H, SurfmanProvider<H, E>>::take_surface, (chain,), taken),
    ensures
        old(chain)@.provider@.pending is Some ==> {
            &&& taken == old(chain)@.provider@.pending
            &&& final(chain)@.provider@.recycled == old(chain)@.provider@.recycled
        },
        old(chain)@.provider@.pending is None && taken is Some
            ==> final(chain)@.provider@.recycled.push(taken->0)
            == old(chain)@.provider@.recycled,
        taken is None <==> old(chain)@.provider@.pending is None
            && old(chain)@.provider@.recycled.len() == 0,
        taken is None ==> final(chain)@.provider@.recycled.len() == 0,
        final(chain)@.provider@.pending is None,
        final(chain)@.provider@.access == old(chain)@.provider@.access,
        final(chain)@.size == old(chain)@.size,
        final(chain)@.context_id == old(chain)@.context_id,
        final(chain)@.unattached == old(chain)@.unattached,
        final(chain)@.stage == old(chain)@.stage,
        final(chain)@.doomed == old(chain)@.doomed,
{
    if old(chain)@.provider@.pending is None && taken is Some {
        assert(final(chain)@.provider@.recycled.push(taken->0)
            =~= old(chain)@.provider@.recycled);
    }
}

/// A surface that a consumer hands back to a swap chain is kept, behind those that were handed back
/// before. Nothing else changes.
pub proof fn consumers_hand_surfaces_back<H, E>(
    chain: &mut SwapChain<H, SurfmanProvider<H, E>>,
    surface: Surface<H>,
)
    requires
        call_ensures(
            SwapChain::<H, SurfmanProvider<H, E>>::recycle_surface,
            (chain, surface),
            (),
        ),
    ensures
        final(chain)@.provider@.recycled.len() > 0,
        final(chain)@.provider@.recycled.last() == surface,
        final(chain)@.provider@.recycled.drop_last() == old(chain)@.provider@.recycled,
        final(chain)@.provider@.pending == old(chain)@.provider@.pending,
        final(chain)@.provider@.access == old(chain)@.provider@.access,
        final(chain)@.size == old(chain)@.size,
        final(chain)@.context_id == old(chain)@.context_id,
        final(chain)@.unattached == old(chain)@.unattached,
        final(chain)@.stage == old(chain)@.stage,
        final(chain)@.doomed == old(chain)@.doomed,
{
    assert(final(chain)@.provider@.recycled.drop_last() =~= old(chain)@.provider@.recycled);
}

/// The consumers of a swap chain deal with its backend, whatever it is, and with nothing else.
pub proof fn consumers_deal_with_the_backend<H, P: SurfaceProvider<H>>(
    taking: &mut SwapChain<H, P>,
    taken: Option<Surface<H>>,
    recycling: &mut SwapChain<H, P>,
    surface: Surface<H>,
)
    requires
        call_ensures(SwapChain::<H, P>::take_surface, (taking,), taken),
        call_ensures(SwapChain::<H, P>::recycle_surface, (recycling, surface), ()),
    ensures
        P::front_buffer_taken(old(taking)@.provider, final(taking)@.provider, taken),
        final(taking)@ == (ChainState { provider: final(taking)@.provider, ..old(taking)@ }),
        P::surface_recycled(old(recycling)@.provider, surface, final(recycling)@.provider),
        final(recycling)@ == (ChainState {
            provider: final(recycling)@.provider,
            ..old(recycling)@
        }),
{
}

/// What a swap chain says of itself is so: whether a context is its producer context, its size,
/// whether it is attached, and whether an operation is running.
pub proof fn chains_tell_the_truth<H, E, P: SurfaceProvider<H>>(
    chain: &SwapChain<H, P>,
    context_id: ContextID,
    valid: Result<(), Error<E>>,
    size: Size2D,
    attached: bool,
    idle: bool,
)
    requires
        call_ensures(SwapChain::<H, P>::validate_context::<E>, (chain, context_id), valid),
        call_ensures(SwapChain::<H, P>::size, (chain,), size),
        call_ensures(SwapChain::<H, P>::is_attached, (chain,), attached),
        call_ensures(SwapChain::<H, P>::is_idle, (chain,), idle),
    ensures
        valid is Ok <==> context_id == chain@.context_id,
        valid is Err ==> valid == Err::<(), Error<E>>(Error::IncompatibleContext),
        size == chain@.size,
        attached <==> chain@.unattached is None,
        idle <==> chain@.stage is Idle,
{
}

/// Whether `reply` is an answer to `request`.
pub open spec fn answers<H, E>(request: Request<H>, reply: Reply<H, E>) -> bool {
    match request {
        Request::CreateSurface { .. } => reply is Created,
        Request::DestroySurface { .. } => reply is Destroyed,
        Request::UnbindSurface => reply is Unbound,
        Request::BindSurface { .. } => reply is Bound,
        Request::SaveGlState => reply is Saved,
        Request::FindFramebuffer => reply is Framebuffer,
        Request::Clear { .. } => reply is Cleared,
        Request::RestoreGlState { .. } => reply is Restored,
    }
}

/// Whether a swap chain at `stage` accepts the answers to `request`, and no others. Only a clear
/// accepts that the context has no surface.
pub open spec fn waits_for<H, E>(stage: Stage<H>, request: Request<H>) -> bool {
    forall|reply: Reply<H, E>|
        {
            &&& #[trigger] stage.awaits(reply) ==> answers(request, reply)
            &&& answers(request, reply) && !(reply is Unbound && reply->Unbound_0 is Ok
                && reply->Unbound_0->Ok_0 is None) ==> stage.awaits(reply)
            &&& reply is Unbound && reply->Unbound_0 is Ok && reply->Unbound_0->Ok_0 is None ==> (
            stage.awaits(reply) <==> stage is ClearUnbinding)
        }
}

/// Where an operation stands after a turn: it waits for an answer to what it asks, or is over.
pub open spec fn in_step<H, P: SurfaceProvider<H>>(
    state: ChainState<H, P>,
    step: Step<H, P::Error>,
) -> bool {
    match step {
        Step::Ask(request) => waits_for::<H, P::Error>(state.stage, request),
        Step::Done(_) => state.stage is Idle,
    }
}

/// Whatever an operation asks, the swap chain accepts the answers to it, and no others. Nothing is
/// running once the operation is done.
pub proof fn requests_can_be_answered<H, P: SurfaceProvider<H>, Q>(
    operation: Operation,
    state: ChainState<H, P>,
    context_id: ContextID,
    other: ChainState<H, Q>,
    reply: Reply<H, P::Error>,
    after: ChainState<H, P>,
    other_after: ChainState<H, Q>,
    step: Step<H, P::Error>,
)
    requires
        ({
            ||| state.at_rest() && operation.starts(state, context_id, after, step)
            ||| state.at_rest() && state.attachment_starts(context_id, other, after, step)
            ||| state.wf() && state.stage.awaits(reply) && state.resumes(reply, after, step)
            ||| state.wf() && state.stage.awaits(reply) && state.attachment_resumes(
                other,
                reply,
                after,
                other_after,
                step,
            )
        }),
    ensures
        in_step(after, step),
        after.wf(),
{
}

/// A swap chain says truly which answers it accepts.
pub proof fn chains_know_what_they_wait_for<H, P: SurfaceProvider<H>>(
    chain: &SwapChain<H, P>,
    request: Request<H>,
    reply: Reply<H, P::Error>,
    accepted: bool,
)
    requires
        waits_for::<H, P::Error>(chain@.stage, request),
        call_ensures(SwapChain::<H, P>::accepts, (chain, &reply), accepted),
    ensures
        accepted ==> answers(request, reply),
        answers(request, reply) && !(reply matches Reply::Unbound(Ok(None))) ==> accepted,
        reply matches Reply::Unbound(Ok(None)) ==> (accepted <==> chain@.stage is ClearUnbinding),
{
    assert(chain@.stage.awaits(reply) == accepted);
}

/// An operation that is given up is over. The swap chain has what it had, and its back buffer if
/// that was unattached and is still in the hands of the operation.
pub proof fn abandoned_operations_give_the_back_buffer_back<H, P: SurfaceProvider<H>>(
    chain: &mut SwapChain<H, P>,
)
    requires
        call_ensures(SwapChain::<H, P>::abandon, (chain,), ()),
    ensures
        final(chain)@.stage is Idle,
        final(chain)@.doomed.len() == 0,
        final(chain)@.provider == old(chain)@.provider,
        final(chain)@.size == old(chain)@.size,
        final(chain)@.context_id == old(chain)@.context_id,
        match old(chain)@.stage {
            Stage::AttachUnbinding { surface } => final(chain)@.unattached == Some(surface),
            Stage::ClearUnbinding { state, back } => final(chain)@.unattached == Some(back),
            Stage::ReattachBinding { state, back } => final(chain)@.unattached == Some(back),
            _ => final(chain)@.unattached == old(chain)@.unattached,
        },
{
}

} // verus!
