//! Whole operations on a swap chain.
//!
//! An operation is followed through its *dialogue* with the device: the requests that it made,
//! each with the answer that it got.

use vstd::prelude::*;

use crate::chain::ChainState;
use crate::device::{Reply, Request, Step};
use crate::provider::{SurfaceProvider, SurfmanProvider};
use crate::surface::{ContextID, Error, Size2D, Surface};

verus! {

/// A request and the answer to it.
pub type Exchange<H, E> = (Request<H>, Reply<H, E>);

/// The state of a swap chain with the backend that this library comes with.
pub type SurfmanChain<H, E> = ChainState<H, SurfmanProvider<H, E>>;

/// Whether an operation that stands at `step` in the state `state` goes through `dialogue`, and
/// ends in the state `end` with `result`.
pub open spec fn leads_to<H, P: SurfaceProvider<H>>(
    state: ChainState<H, P>,
    step: Step<H, P::Error>,
    dialogue: Seq<Exchange<H, P::Error>>,
    end: ChainState<H, P>,
    result: Result<(), Error<P::Error>>,
) -> bool
    decreases dialogue.len(),
{
    if dialogue.len() == 0 {
        &&& step == Step::<H, P::Error>::Done(result)
        &&& end == state
    } else {
        let (request, reply) = dialogue[0];
        &&& step == Step::<H, P::Error>::Ask(request)
        &&& state.stage.awaits(reply)
        &&& exists|next: ChainState<H, P>, next_step: Step<H, P::Error>|
            {
                &&& #[trigger] state.resumes(reply, next, next_step)
                &&& leads_to(next, next_step, dialogue.drop_first(), end, result)
            }
    }
}

/// The operations on one swap chain.
pub ghost enum Operation {
    SwapBuffers,
    Resize { size: Size2D },
    ClearSurface,
    Destroy,
}

impl Operation {
    /// The turn from `state` to `after` that starts the operation.
    pub open spec fn starts<H, P: SurfaceProvider<H>>(
        self,
        state: ChainState<H, P>,
        context_id: ContextID,
        after: ChainState<H, P>,
        step: Step<H, P::Error>,
    ) -> bool {
        match self {
            Operation::SwapBuffers => state.swap_starts(context_id, after, step),
            Operation::Resize { size } => state.resize_starts(context_id, size, after, step),
            Operation::ClearSurface => state.clear_starts(context_id, after, step),
            Operation::Destroy => state.destroy_starts(context_id, after, step),
        }
    }

    /// Whether the operation, called in the state `state` for `context_id`, goes through
    /// `dialogue`, and ends in the state `end` with `result`.
    pub open spec fn runs<H, P: SurfaceProvider<H>>(
        self,
        state: ChainState<H, P>,
        context_id: ContextID,
        dialogue: Seq<Exchange<H, P::Error>>,
        end: ChainState<H, P>,
        result: Result<(), Error<P::Error>>,
    ) -> bool {
        exists|started: ChainState<H, P>, step: Step<H, P::Error>|
            {
                &&& #[trigger] self.starts(state, context_id, started, step)
                &&& leads_to(started, step, dialogue, end, result)
            }
    }
}

/// Whether an attachment that stands at `step`, with the swap chains in the states `state` and
/// `other`, goes through `dialogue`, and ends in the states `end` and `other_end` with `result`.
pub open spec fn attachment_leads_to<H, P: SurfaceProvider<H>, Q>(
    state: ChainState<H, P>,
    other: ChainState<H, Q>,
    step: Step<H, P::Error>,
    dialogue: Seq<Exchange<H, P::Error>>,
    end: ChainState<H, P>,
    other_end: ChainState<H, Q>,
    result: Result<(), Error<P::Error>>,
) -> bool
    decreases dialogue.len(),
{
    if dialogue.len() == 0 {
        &&& step == Step::<H, P::Error>::Done(result)
        &&& end == state
        &&& other_end == other
    } else {
        let (request, reply) = dialogue[0];
        &&& step == Step::<H, P::Error>::Ask(request)
        &&& state.stage.awaits(reply)
        &&& exists|
            next: ChainState<H, P>,
            other_next: ChainState<H, Q>,
            next_step: Step<H, P::Error>,
        |
            {
                &&& #[trigger] state.attachment_resumes(other, reply, next, other_next, next_step)
                &&& attachment_leads_to(
                    next,
                    other_next,
                    next_step,
                    dialogue.drop_first(),
                    end,
                    other_end,
                    result,
                )
            }
    }
}

/// Whether taking the attachment from `other`, called in the state `state` for `context_id`,
/// goes through `dialogue`, and ends in the states `end` and `other_end` with `result`.
pub open spec fn attachment_runs<H, P: SurfaceProvider<H>, Q>(
    state: ChainState<H, P>,
    other: ChainState<H, Q>,
    context_id: ContextID,
    dialogue: Seq<Exchange<H, P::Error>>,
    end: ChainState<H, P>,
    other_end: ChainState<H, Q>,
    result: Result<(), Error<P::Error>>,
) -> bool {
    exists|started: ChainState<H, P>, step: Step<H, P::Error>|
        {
            &&& #[trigger] state.attachment_starts(context_id, other, started, step)
            &&& attachment_leads_to(started, other, step, dialogue, end, other_end, result)
        }
}

/// The turn that an operation under way takes on the first answer of its dialogue, if it succeeds
/// in the end.
pub proof fn first_turn<H, P: SurfaceProvider<H>>(
    state: ChainState<H, P>,
    step: Step<H, P::Error>,
    dialogue: Seq<Exchange<H, P::Error>>,
    end: ChainState<H, P>,
) -> (turn: (ChainState<H, P>, Step<H, P::Error>))
    requires
        leads_to(state, step, dialogue, end, Ok(())),
        step is Ask,
    ensures
        dialogue.len() > 0,
        step == Step::<H, P::Error>::Ask(dialogue[0].0),
        state.stage.awaits(dialogue[0].1),
        !dialogue[0].1.refuses(),
        state.resumes(dialogue[0].1, turn.0, turn.1),
        leads_to(turn.0, turn.1, dialogue.drop_first(), end, Ok(())),
{
    let reply = dialogue[0].1;
    let turn = choose|next: ChainState<H, P>, next_step: Step<H, P::Error>|
        {
            &&& #[trigger] state.resumes(reply, next, next_step)
            &&& leads_to(next, next_step, dialogue.drop_first(), end, Ok(()))
        };
    turn
}

/// The current surface of the context after one exchange, if it was `bound` before.
pub open spec fn bound_next<H, E>(
    bound: Option<Surface<H>>,
    exchange: Exchange<H, E>,
) -> Option<Surface<H>> {
    match exchange {
        (Request::UnbindSurface, Reply::Unbound(Ok(_))) => None,
        (Request::BindSurface { surface }, Reply::Bound(Ok(_))) => Some(surface),
        _ => bound,
    }
}

/// The current surface of the context after a dialogue, if it was `bound` before.
pub open spec fn bound_after<H, E>(
    bound: Option<Surface<H>>,
    dialogue: Seq<Exchange<H, E>>,
) -> Option<Surface<H>>
    decreases dialogue.len(),
{
    if dialogue.len() == 0 {
        bound
    } else {
        bound_after(bound_next(bound, dialogue[0]), dialogue.drop_first())
    }
}

/// Whether the device answers one request as the context stands, with `bound` as its current
/// surface: it unbinds that surface, and it creates surfaces of the size asked for.
pub open spec fn answers_truly<H, E>(
    bound: Option<Surface<H>>,
    exchange: Exchange<H, E>,
) -> bool {
    match exchange {
        (Request::UnbindSurface, Reply::Unbound(Ok(surface))) => surface == bound,
        (Request::CreateSurface { access, size }, Reply::Created(Ok(surface))) => surface.size
            == size,
        _ => true,
    }
}

/// Whether the device answers a whole dialogue truly.
pub open spec fn truthful<H, E>(
    bound: Option<Surface<H>>,
    dialogue: Seq<Exchange<H, E>>,
) -> bool
    decreases dialogue.len(),
{
    dialogue.len() == 0 || {
        &&& answers_truly(bound, dialogue[0])
        &&& truthful(bound_next(bound, dialogue[0]), dialogue.drop_first())
    }
}

/// The back buffer of a swap chain, where `bound` is the current surface of the context.
pub open spec fn back_buffer<H, P>(
    state: ChainState<H, P>,
    bound: Option<Surface<H>>,
) -> Option<Surface<H>> {
    match state.unattached {
        Some(surface) => Some(surface),
        None => bound,
    }
}

} // verus!
