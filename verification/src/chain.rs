//! A swap chain.
//!
//! The producer calls an operation, has its device answer the requests that come up, and hands
//! each answer to [`SwapChain::resume`] (to [`SwapChain::resume_attachment`] if the operation is
//! [`SwapChain::take_attachment_from`]) until the operation is done. One operation runs at a
//! time.

use vstd::prelude::*;

use crate::device::{Reply, Request, Step};
use crate::gl::GlState;
use crate::provider::{released_surfaces, Provision, SurfaceProvider};
use crate::surface::{ContextID, Error, Size2D, Surface, SurfaceAccess};

verus! {

/// What the running operation waits for, and the surfaces that are in its hands meanwhile.
#[derive(Debug)]
pub enum Stage<H> {
    /// No operation is running.
    Idle,
    /// A swap waits for a new back buffer.
    SwapCreating,
    /// A swap waits for the attached surface, to bind `back` in its place.
    SwapUnbinding { back: Surface<H> },
    /// A swap waits for its back buffer to be bound, to present `front`.
    SwapBinding { front: Surface<H> },
    /// A swap or a destruction waits for a released surface to be destroyed.
    Destroying,
    /// A resize waits for a back buffer of size `size`.
    ResizeCreating { size: Size2D },
    /// A resize waits for the attached surface, to bind `back` in its place.
    ResizeUnbinding { size: Size2D, back: Surface<H> },
    /// A resize waits for its back buffer to be bound, to destroy `replaced`.
    ResizeBinding { size: Size2D, replaced: Surface<H> },
    /// A resize waits for the old back buffer to be destroyed.
    ResizeDestroying { size: Size2D },
    /// An attachment waits for the attached surface, to bind `surface` in its place.
    AttachUnbinding { surface: Surface<H> },
    /// An attachment waits for its surface to be bound, to detach `detached`.
    AttachBinding { detached: Surface<H> },
    /// A clear waits for the GL state.
    ClearSaving,
    /// A clear waits for the current surface of the context, to bind `back` in its place.
    ClearUnbinding { state: GlState, back: Surface<H> },
    /// A clear waits for the back buffer to be bound; `previous` was bound before.
    ClearBinding { state: GlState, previous: Option<Surface<H>> },
    /// A clear waits for the framebuffer object of the back buffer.
    ClearLocating { state: GlState, previous: Option<Surface<H>> },
    /// A clear waits for the back buffer to be cleared.
    Clearing { state: GlState, previous: Option<Surface<H>> },
    /// A clear waits to get the back buffer off the context again, to bind `reattach`.
    ReattachUnbinding { state: GlState, reattach: Surface<H> },
    /// A clear waits for the previous surface to be bound again; `back` is the back buffer.
    ReattachBinding { state: GlState, back: Surface<H> },
    /// A clear waits for the GL state to be restored.
    Restoring,
    /// A destruction waits for the back buffer to be destroyed.
    DestroyingBack,
}

/// The state of a swap chain.
#[verifier::ext_equal]
pub ghost struct ChainState<H, P> {
    /// The backend.
    pub provider: P,
    /// The size of the back buffer.
    pub size: Size2D,
    /// The producer context.
    pub context_id: ContextID,
    /// The back buffer, if the swap chain is not attached. If it is attached, the context owns
    /// the back buffer.
    pub unattached: Option<Surface<H>>,
    /// Where the running operation stands.
    pub stage: Stage<H>,
    /// The surfaces that the running operation has yet to destroy, first to last.
    pub doomed: Seq<Surface<H>>,
}

impl<H> Stage<H> {
    /// Whether `reply` answers the request that the operation waits for. Where the operation
    /// relies on the context to have a surface, an answer that it has none does not.
    pub open spec fn awaits<E>(self, reply: Reply<H, E>) -> bool {
        match self {
            Stage::Idle => false,
            Stage::SwapCreating | Stage::ResizeCreating { .. } => reply is Created,
            Stage::SwapUnbinding { .. }
            | Stage::ResizeUnbinding { .. }
            | Stage::AttachUnbinding { .. }
            | Stage::ReattachUnbinding { .. } => {
                &&& reply is Unbound
                &&& reply->Unbound_0 != Ok::<Option<Surface<H>>, E>(None)
            },
            Stage::ClearUnbinding { .. } => reply is Unbound,
            Stage::SwapBinding { .. }
            | Stage::ResizeBinding { .. }
            | Stage::AttachBinding { .. }
            | Stage::ClearBinding { .. }
            | Stage::ReattachBinding { .. } => reply is Bound,
            Stage::Destroying
            | Stage::ResizeDestroying { .. }
            | Stage::DestroyingBack => reply is Destroyed,
            Stage::ClearSaving => reply is Saved,
            Stage::ClearLocating { .. } => reply is Framebuffer,
            Stage::Clearing { .. } => reply is Cleared,
            Stage::Restoring => reply is Restored,
        }
    }

    /// Whether the running operation is [`SwapChain::take_attachment_from`].
    pub open spec fn attaching(self) -> bool {
        self is AttachUnbinding || self is AttachBinding
    }
}

impl<H, P: SurfaceProvider<H>> ChainState<H, P> {
    /// Surfaces wait to be destroyed only while an operation destroys them.
    pub open spec fn wf(self) -> bool {
        self.stage !is Destroying ==> self.doomed.len() == 0
    }

    /// Whether no operation is running.
    pub open spec fn at_rest(self) -> bool {
        &&& self.wf()
        &&& self.stage is Idle
    }

    /// The state at `stage`.
    pub open spec fn at(self, stage: Stage<H>) -> Self {
        ChainState { stage, ..self }
    }

    /// The state without the running operation.
    pub open spec fn stopped(self) -> Self {
        ChainState { stage: Stage::Idle, doomed: seq![], ..self }
    }

    /// The state once the running operation is given up. If it has an unattached back buffer in
    /// its hands, the swap chain has it again. The other surfaces in its hands are gone.
    pub open spec fn given_up(self) -> Self {
        let unattached = match self.stage {
            Stage::AttachUnbinding { surface } => Some(surface),
            Stage::ClearUnbinding { state, back } => Some(back),
            Stage::ReattachBinding { state, back } => Some(back),
            _ => self.unattached,
        };
        ChainState { unattached, ..self.stopped() }
    }

    /// The turn from `self` to `after` that goes on with the surfaces to destroy.
    pub open spec fn destroys_next(self, after: Self, step: Step<H, P::Error>) -> bool {
        if self.doomed.len() == 0 {
            &&& after == self.at(Stage::Idle)
            &&& step == Step::<H, P::Error>::Done(Ok(()))
        } else {
            &&& after == ChainState {
                stage: Stage::Destroying,
                doomed: self.doomed.drop_first(),
                ..self
            }
            &&& step == Step::<H, P::Error>::Ask(
                Request::DestroySurface { surface: self.doomed[0] },
            )
        }
    }

    /// The turn from `self` to `after` that has the surfaces destroyed that the backend released,
    /// if it did not refuse.
    pub open spec fn destroys(
        self,
        released: Result<Seq<Surface<H>>, P::Error>,
        after: Self,
        step: Step<H, P::Error>,
    ) -> bool {
        let asked = ChainState { provider: after.provider, ..self };
        match released {
            Ok(surfaces) => (ChainState { doomed: surfaces, ..asked }).destroys_next(after, step),
            Err(error) => {
                &&& after == asked.stopped()
                &&& step == Step::<H, P::Error>::Done(Err(Error::Refused(error)))
            },
        }
    }

    /// The turn from `self` to `after` that makes `front` the front buffer.
    pub open spec fn presents(
        self,
        front: Surface<H>,
        after: Self,
        step: Step<H, P::Error>,
    ) -> bool {
        exists|released: Result<Seq<Surface<H>>, P::Error>|
            {
                &&& #[trigger] P::front_buffer_set(
                    self.provider,
                    self.context_id,
                    front,
                    after.provider,
                    released,
                )
                &&& self.destroys(released, after, step)
            }
    }

    /// The turn from `self` to `after` that makes `back` the back buffer, and the old back
    /// buffer the front buffer.
    pub open spec fn exchanges(
        self,
        back: Surface<H>,
        after: Self,
        step: Step<H, P::Error>,
    ) -> bool {
        match self.unattached {
            Some(front) => (ChainState { unattached: Some(back), ..self }).presents(
                front,
                after,
                step,
            ),
            None => {
                &&& after == self.at(Stage::SwapUnbinding { back })
                &&& step == Step::<H, P::Error>::Ask(Request::UnbindSurface)
            },
        }
    }

    /// An exchange goes the same way at every stage.
    proof fn exchange_forgets_stage(
        self,
        stage: Stage<H>,
        back: Surface<H>,
        after: Self,
        step: Step<H, P::Error>,
    )
        requires
            self.unattached is Some ==> self.exchanges(back, after, step),
        ensures
            self.unattached is Some ==> self.at(stage).exchanges(back, after, step),
    {
        if let Some(front) = self.unattached {
            let here = ChainState { unattached: Some(back), ..self };
            let there = ChainState { unattached: Some(back), ..self.at(stage) };
            assert(here.presents(front, after, step));
            let released = choose|released: Result<Seq<Surface<H>>, P::Error>|
                {
                    &&& #[trigger] P::front_buffer_set(
                        here.provider,
                        here.context_id,
                        front,
                        after.provider,
                        released,
                    )
                    &&& here.destroys(released, after, step)
                };
            assert(P::front_buffer_set(
                there.provider,
                there.context_id,
                front,
                after.provider,
                released,
            ));
            assert(there.destroys(released, after, step));
            assert(there.presents(front, after, step));
        }
    }

    /// The turn from `self` to `after` that starts [`SwapChain::swap_buffers`].
    pub open spec fn swap_starts(
        self,
        context_id: ContextID,
        after: Self,
        step: Step<H, P::Error>,
    ) -> bool {
        if context_id != self.context_id {
            &&& after == self
            &&& step == Step::<H, P::Error>::Done(Err(Error::IncompatibleContext))
        } else {
            exists|recycled: P, provider: P, provision: Provision<H, P::Error>|
                {
                    &&& #[trigger] P::front_buffer_recycled(
                        self.provider,
                        self.context_id,
                        recycled,
                    )
                    &&& #[trigger] P::surface_provided(
                        recycled,
                        self.context_id,
                        self.size,
                        provider,
                        provision,
                    )
                    &&& match provision {
                        Provision::Recycled { surface } => (ChainState {
                            provider,
                            ..self
                        }).exchanges(surface, after, step),
                        Provision::Create { access, size } => {
                            &&& after == ChainState {
                                provider,
                                stage: Stage::SwapCreating,
                                ..self
                            }
                            &&& step == Step::<H, P::Error>::Ask(
                                Request::CreateSurface { access, size },
                            )
                        },
                        Provision::Refused { error } => {
                            &&& after == ChainState { provider, ..self }
                            &&& step == Step::<H, P::Error>::Done(Err(Error::Refused(error)))
                        },
                    }
                }
        }
    }

    /// The turn from `self` to `after` that makes `back` the back buffer of size `size`, and has
    /// the old one destroyed.
    pub open spec fn resizes(
        self,
        size: Size2D,
        back: Surface<H>,
        after: Self,
        step: Step<H, P::Error>,
    ) -> bool {
        match self.unattached {
            Some(old_back) => {
                &&& after == ChainState {
                    unattached: Some(back),
                    stage: Stage::ResizeDestroying { size },
                    ..self
                }
                &&& step == Step::<H, P::Error>::Ask(Request::DestroySurface { surface: old_back })
            },
            None => {
                &&& after == self.at(Stage::ResizeUnbinding { size, back })
                &&& step == Step::<H, P::Error>::Ask(Request::UnbindSurface)
            },
        }
    }

    /// The turn from `self` to `after` that starts [`SwapChain::resize`].
    pub open spec fn resize_starts(
        self,
        context_id: ContextID,
        size: Size2D,
        after: Self,
        step: Step<H, P::Error>,
    ) -> bool {
        if context_id != self.context_id {
            &&& after == self
            &&& step == Step::<H, P::Error>::Done(Err(Error::IncompatibleContext))
        } else if size.width < 1 || size.height < 1 {
            &&& after == self
            &&& step == Step::<H, P::Error>::Done(Err(Error::Failed))
        } else {
            exists|provider: P, provision: Provision<H, P::Error>|
                {
                    &&& #[trigger] P::sized_surface_created(
                        self.provider,
                        size,
                        provider,
                        provision,
                    )
                    &&& match provision {
                        Provision::Recycled { surface } => (ChainState {
                            provider,
                            ..self
                        }).resizes(size, surface, after, step),
                        Provision::Create { access, size: asked } => {
                            &&& after == ChainState {
                                provider,
                                stage: Stage::ResizeCreating { size },
                                ..self
                            }
                            &&& step == Step::<H, P::Error>::Ask(
                                Request::CreateSurface { access, size: asked },
                            )
                        },
                        Provision::Refused { error } => {
                            &&& after == ChainState { provider, ..self }
                            &&& step == Step::<H, P::Error>::Done(Err(Error::Refused(error)))
                        },
                    }
                }
        }
    }

    /// The turn from `self` to `after` that starts [`SwapChain::take_attachment_from`].
    pub open spec fn attachment_starts<Q>(
        self,
        context_id: ContextID,
        other: ChainState<H, Q>,
        after: Self,
        step: Step<H, P::Error>,
    ) -> bool {
        if context_id != self.context_id || context_id != other.context_id {
            &&& after == self
            &&& step == Step::<H, P::Error>::Done(Err(Error::IncompatibleContext))
        } else if self.unattached is Some && other.unattached is None {
            &&& after == ChainState {
                unattached: None,
                stage: Stage::AttachUnbinding { surface: self.unattached->0 },
                ..self
            }
            &&& step == Step::<H, P::Error>::Ask(Request::UnbindSurface)
        } else {
            &&& after == self
            &&& step == Step::<H, P::Error>::Done(Err(Error::Failed))
        }
    }

    /// The turn from `self` to `after` that starts [`SwapChain::clear_surface`].
    pub open spec fn clear_starts(
        self,
        context_id: ContextID,
        after: Self,
        step: Step<H, P::Error>,
    ) -> bool {
        if context_id != self.context_id {
            &&& after == self
            &&& step == Step::<H, P::Error>::Done(Err(Error::IncompatibleContext))
        } else {
            &&& after == self.at(Stage::ClearSaving)
            &&& step == Step::<H, P::Error>::Ask(Request::SaveGlState)
        }
    }

    /// The turn from `self` to `after` that has the surfaces of the backend destroyed.
    pub open spec fn releases(self, after: Self, step: Step<H, P::Error>) -> bool {
        exists|released: Result<Seq<Surface<H>>, P::Error>|
            {
                &&& #[trigger] P::all_surfaces_released(self.provider, after.provider, released)
                &&& self.destroys(released, after, step)
            }
    }

    /// The turn from `self` to `after` that starts [`SwapChain::destroy`].
    pub open spec fn destroy_starts(
        self,
        context_id: ContextID,
        after: Self,
        step: Step<H, P::Error>,
    ) -> bool {
        if context_id != self.context_id {
            &&& after == self
            &&& step == Step::<H, P::Error>::Done(Err(Error::IncompatibleContext))
        } else {
            match self.unattached {
                Some(surface) => {
                    &&& after == ChainState {
                        unattached: None,
                        stage: Stage::DestroyingBack,
                        ..self
                    }
                    &&& step == Step::<H, P::Error>::Ask(Request::DestroySurface { surface })
                },
                None => self.releases(after, step),
            }
        }
    }

    /// The turn from `self` to `after` on the answer `reply`, for all operations on one swap
    /// chain.
    pub open spec fn resumes(
        self,
        reply: Reply<H, P::Error>,
        after: Self,
        step: Step<H, P::Error>,
    ) -> bool {
        if reply.refuses() {
            &&& after == self.given_up()
            &&& step == Step::<H, P::Error>::Done(Err(Error::Refused(reply.refusal())))
        } else {
            match self.stage {
                Stage::SwapCreating => self.exchanges(reply->Created_0->Ok_0, after, step),
                Stage::SwapUnbinding { back } => {
                    &&& after == self.at(
                        Stage::SwapBinding { front: reply->Unbound_0->Ok_0->Some_0 },
                    )
                    &&& step == Step::<H, P::Error>::Ask(Request::BindSurface { surface: back })
                },
                Stage::SwapBinding { front } => self.presents(front, after, step),
                Stage::Destroying => self.destroys_next(after, step),
                Stage::ResizeCreating { size } => self.resizes(
                    size,
                    reply->Created_0->Ok_0,
                    after,
                    step,
                ),
                Stage::ResizeUnbinding { size, back } => {
                    &&& after == self.at(
                        Stage::ResizeBinding { size, replaced: reply->Unbound_0->Ok_0->Some_0 },
                    )
                    &&& step == Step::<H, P::Error>::Ask(Request::BindSurface { surface: back })
                },
                Stage::ResizeBinding { size, replaced } => {
                    &&& after == self.at(Stage::ResizeDestroying { size })
                    &&& step == Step::<H, P::Error>::Ask(
                        Request::DestroySurface { surface: replaced },
                    )
                },
                Stage::ResizeDestroying { size } => {
                    &&& after == ChainState { size, stage: Stage::Idle, ..self }
                    &&& step == Step::<H, P::Error>::Done(Ok(()))
                },
                Stage::ClearSaving => match self.unattached {
                    Some(back) => {
                        &&& after == ChainState {
                            unattached: None,
                            stage: Stage::ClearUnbinding { state: reply->Saved_0, back },
                            ..self
                        }
                        &&& step == Step::<H, P::Error>::Ask(Request::UnbindSurface)
                    },
                    None => {
                        &&& after == self.at(
                            Stage::ClearLocating { state: reply->Saved_0, previous: None },
                        )
                        &&& step == Step::<H, P::Error>::Ask(Request::FindFramebuffer)
                    },
                },
                Stage::ClearUnbinding { state, back } => {
                    &&& after == self.at(
                        Stage::ClearBinding { state, previous: reply->Unbound_0->Ok_0 },
                    )
                    &&& step == Step::<H, P::Error>::Ask(Request::BindSurface { surface: back })
                },
                Stage::ClearBinding { state, previous } => {
                    &&& after == self.at(Stage::ClearLocating { state, previous })
                    &&& step == Step::<H, P::Error>::Ask(Request::FindFramebuffer)
                },
                Stage::ClearLocating { state, previous } => {
                    &&& after == self.at(Stage::Clearing { state, previous })
                    &&& step == Step::<H, P::Error>::Ask(
                        Request::Clear { framebuffer: reply->Framebuffer_0 },
                    )
                },
                Stage::Clearing { state, previous } => match previous {
                    Some(surface) => {
                        &&& after == self.at(
                            Stage::ReattachUnbinding { state, reattach: surface },
                        )
                        &&& step == Step::<H, P::Error>::Ask(Request::UnbindSurface)
                    },
                    None => {
                        &&& after == self.at(Stage::Restoring)
                        &&& step == Step::<H, P::Error>::Ask(Request::RestoreGlState { state })
                    },
                },
                Stage::ReattachUnbinding { state, reattach } => {
                    &&& after == self.at(
                        Stage::ReattachBinding {
                            state,
                            back: reply->Unbound_0->Ok_0->Some_0,
                        },
                    )
                    &&& step == Step::<H, P::Error>::Ask(Request::BindSurface { surface: reattach })
                },
                Stage::ReattachBinding { state, back } => {
                    &&& after == ChainState {
                        unattached: Some(back),
                        stage: Stage::Restoring,
                        ..self
                    }
                    &&& step == Step::<H, P::Error>::Ask(Request::RestoreGlState { state })
                },
                Stage::Restoring => {
                    &&& after == self.at(Stage::Idle)
                    &&& step == Step::<H, P::Error>::Done(Ok(()))
                },
                Stage::DestroyingBack => self.releases(after, step),
                Stage::Idle
                | Stage::AttachUnbinding { .. }
                | Stage::AttachBinding { .. } => false,
            }
        }
    }

    /// The turn on the answer `reply` while `self` takes the attachment from `other`: `self`
    /// turns to `after`, and `other` to `other_after`. If `other` lost its place on the context
    /// and `self` could not take it, both are detached.
    pub open spec fn attachment_resumes<Q>(
        self,
        other: ChainState<H, Q>,
        reply: Reply<H, P::Error>,
        after: Self,
        other_after: ChainState<H, Q>,
        step: Step<H, P::Error>,
    ) -> bool {
        if reply.refuses() {
            &&& after == self.given_up()
            &&& other_after == match self.stage {
                Stage::AttachBinding { detached } => ChainState {
                    unattached: Some(detached),
                    ..other
                },
                _ => other,
            }
            &&& step == Step::<H, P::Error>::Done(Err(Error::Refused(reply.refusal())))
        } else {
            match self.stage {
                Stage::AttachUnbinding { surface } => {
                    &&& after == self.at(
                        Stage::AttachBinding { detached: reply->Unbound_0->Ok_0->Some_0 },
                    )
                    &&& other_after == other
                    &&& step == Step::<H, P::Error>::Ask(Request::BindSurface { surface })
                },
                Stage::AttachBinding { detached } => {
                    &&& after == self.at(Stage::Idle)
                    &&& other_after == ChainState { unattached: Some(detached), ..other }
                    &&& step == Step::<H, P::Error>::Done(Ok(()))
                },
                _ => false,
            }
        }
    }
}

/// A swap chain. `H` is the device's handle to a surface, and `P` the backend.
#[derive(Debug)]
pub struct SwapChain<H, P> {
    // The backend that provides surfaces for this swap chain.
    surface_provider: P,
    // The size of the back buffer.
    size: Size2D,
    // The id of the producer context.
    context_id: ContextID,
    // The back buffer of the swap chain.
    // Some if this swap chain is unattached,
    // None if it is attached (and so the context owns the surface).
    unattached_surface: Option<Surface<H>>,
    // Where the running operation stands.
    stage: Stage<H>,
    // The surfaces that the running operation has yet to destroy.
    doomed: Vec<Surface<H>>,
}

impl<H, P> View for SwapChain<H, P> {
    type V = ChainState<H, P>;

    closed spec fn view(&self) -> ChainState<H, P> {
        ChainState {
            provider: self.surface_provider,
            size: self.size,
            context_id: self.context_id,
            unattached: self.unattached_surface,
            stage: self.stage,
            doomed: self.doomed@,
        }
    }
}

/// A swap chain that is being created, and waits for its back buffer.
#[derive(Debug)]
pub struct PendingChain<H, P> {
    chain: SwapChain<H, P>,
}

impl<H, P> View for PendingChain<H, P> {
    type V = ChainState<H, P>;

    /// The swap chain as it is without the back buffer.
    closed spec fn view(&self) -> ChainState<H, P> {
        self.chain@
    }
}

/// How far [`SwapChain::create_detached`] got.
#[derive(Debug)]
pub enum Creation<H, P> {
    /// The swap chain is created.
    Created { chain: SwapChain<H, P> },
    /// The device has to create the back buffer; its answer goes to [`PendingChain::finish`].
    NeedsSurface { access: SurfaceAccess, size: Size2D, pending: PendingChain<H, P> },
}

/// How [`SwapChain::create_detached`] gets on with its backend: the backend is asked for the back
/// buffer, and has it, or has the device create it, or refuses.
pub open spec fn creation_starts<H, P: SurfaceProvider<H>>(
    context_id: ContextID,
    surface_provider: P,
    size: Size2D,
    creation: Result<Creation<H, P>, Error<P::Error>>,
) -> bool {
    match creation {
        Ok(Creation::Created { chain }) => {
            &&& chain@.unattached is Some
            &&& P::surface_provided(
                surface_provider,
                context_id,
                size,
                chain@.provider,
                Provision::Recycled { surface: chain@.unattached->0 },
            )
            &&& chain@ == (ChainState {
                provider: chain@.provider,
                size,
                context_id,
                unattached: chain@.unattached,
                stage: Stage::<H>::Idle,
                doomed: seq![],
            })
        },
        Ok(Creation::NeedsSurface { access, size: asked, pending }) => {
            &&& P::surface_provided(
                surface_provider,
                context_id,
                size,
                pending@.provider,
                Provision::Create { access, size: asked },
            )
            &&& pending@ == (ChainState {
                provider: pending@.provider,
                size,
                context_id,
                unattached: None::<Surface<H>>,
                stage: Stage::<H>::Idle,
                doomed: seq![],
            })
        },
        Err(error) => {
            &&& error is Refused
            &&& exists|provider: P, provision: Provision<H, P::Error>|
                {
                    &&& #[trigger] P::surface_provided(
                        surface_provider,
                        context_id,
                        size,
                        provider,
                        provision,
                    )
                    &&& provision == Provision::<H, P::Error>::Refused {
                        error: error->Refused_0,
                    }
                }
        },
    }
}

impl<H, P: SurfaceProvider<H>> SwapChain<H, P> {
    /// Returns `Ok` if `context_id` is the producer context of this swap chain.
    pub fn validate_context<E>(&self, context_id: ContextID) -> (result: Result<(), Error<E>>)
        ensures
            result == (if context_id == self@.context_id {
                Ok::<(), Error<E>>(())
            } else {
                Err::<(), Error<E>>(Error::IncompatibleContext)
            }),
    {
        if self.context_id == context_id {
            Ok(())
        } else {
            Err(Error::IncompatibleContext)
        }
    }

    /// Get the current size.
    /// Called by a consumer.
    pub fn size(&self) -> (size: Size2D)
        ensures
            size == self@.size,
    {
        self.size
    }

    /// Is this the attached swap chain?
    pub fn is_attached(&self) -> (attached: bool)
        ensures
            attached == (self@.unattached is None),
    {
        self.unattached_surface.is_none()
    }

    /// Is no operation running?
    pub fn is_idle(&self) -> (idle: bool)
        ensures
            idle == (self@.stage is Idle),
    {
        matches!(self.stage, Stage::Idle)
    }

    /// Does `reply` answer the request that the running operation waits for?
    pub fn accepts(&self, reply: &Reply<H, P::Error>) -> (accepted: bool)
        ensures
            accepted == self@.stage.awaits(*reply),
    {
        match (&self.stage, reply) {
            (Stage::SwapCreating, Reply::Created(_)) => true,
            (Stage::ResizeCreating { .. }, Reply::Created(_)) => true,
            (Stage::ClearUnbinding { .. }, Reply::Unbound(_)) => true,
            (_, Reply::Unbound(Ok(None))) => false,
            (Stage::SwapUnbinding { .. }, Reply::Unbound(_)) => true,
            (Stage::ResizeUnbinding { .. }, Reply::Unbound(_)) => true,
            (Stage::AttachUnbinding { .. }, Reply::Unbound(_)) => true,
            (Stage::ReattachUnbinding { .. }, Reply::Unbound(_)) => true,
            (Stage::SwapBinding { .. }, Reply::Bound(_)) => true,
            (Stage::ResizeBinding { .. }, Reply::Bound(_)) => true,
            (Stage::AttachBinding { .. }, Reply::Bound(_)) => true,
            (Stage::ClearBinding { .. }, Reply::Bound(_)) => true,
            (Stage::ReattachBinding { .. }, Reply::Bound(_)) => true,
            (Stage::Destroying, Reply::Destroyed(_)) => true,
            (Stage::ResizeDestroying { .. }, Reply::Destroyed(_)) => true,
            (Stage::DestroyingBack, Reply::Destroyed(_)) => true,
            (Stage::ClearSaving, Reply::Saved(_)) => true,
            (Stage::ClearLocating { .. }, Reply::Framebuffer(_)) => true,
            (Stage::Clearing { .. }, Reply::Cleared) => true,
            (Stage::Restoring, Reply::Restored) => true,
            _ => false,
        }
    }

    /// Gives the running operation up, for want of an answer. If it has an unattached back buffer
    /// in its hands, the swap chain has it again. The other surfaces in its hands are lost.
    pub fn abandon(&mut self)
        ensures
            final(self)@ == old(self)@.given_up(),
            final(self)@.at_rest(),
    {
        match self.take_stage() {
            Stage::AttachUnbinding { surface } => {
                self.unattached_surface = Some(surface);
            },
            Stage::ClearUnbinding { back, .. } => {
                self.unattached_surface = Some(back);
            },
            Stage::ReattachBinding { back, .. } => {
                self.unattached_surface = Some(back);
            },
            _ => {},
        }
        self.doomed.clear();
    }

    /// Take the current front buffer.
    /// Called by a consumer.
    pub fn take_surface(&mut self) -> (taken: Option<Surface<H>>)
        ensures
            P::front_buffer_taken(old(self)@.provider, final(self)@.provider, taken),
            final(self)@ == (ChainState { provider: final(self)@.provider, ..old(self)@ }),
    {
        self.surface_provider.take_front_buffer()
    }

    /// Recycle the current front buffer.
    /// Called by a consumer.
    pub fn recycle_surface(&mut self, surface: Surface<H>)
        ensures
            P::surface_recycled(old(self)@.provider, surface, final(self)@.provider),
            final(self)@ == (ChainState { provider: final(self)@.provider, ..old(self)@ }),
    {
        self.surface_provider.recycle_surface(surface);
    }

    /// Create a new attached swap chain. `context_id` is the producer context, and `size` the
    /// size of its current surface.
    pub fn create_attached(context_id: ContextID, size: Size2D, surface_provider: P) -> (created:
        Result<SwapChain<H, P>, Error<P::Error>>)
        ensures
            created is Ok,
            created->Ok_0@ == (ChainState {
                provider: surface_provider,
                size,
                context_id,
                unattached: None::<Surface<H>>,
                stage: Stage::<H>::Idle,
                doomed: seq![],
            }),
            created->Ok_0@.at_rest(),
    {
        Ok(
            SwapChain {
                surface_provider,
                size,
                context_id,
                unattached_surface: None,
                stage: Stage::Idle,
                doomed: Vec::new(),
            },
        )
    }

    /// Create a new detached swap chain, with a back buffer of size `size` from its backend.
    pub fn create_detached(context_id: ContextID, surface_provider: P, size: Size2D) -> (creation:
        Result<Creation<H, P>, Error<P::Error>>)
        ensures
            creation_starts(context_id, surface_provider, size, creation),
    {
        let mut chain = SwapChain {
            surface_provider,
            size,
            context_id,
            unattached_surface: None,
            stage: Stage::Idle,
            doomed: Vec::new(),
        };
        let provision = chain.surface_provider.provide_surface(context_id, size);
        proof {
            assert(P::surface_provided(
                surface_provider,
                context_id,
                size,
                chain@.provider,
                provision,
            ));
        }
        match provision {
            Provision::Recycled { surface } => {
                chain.unattached_surface = Some(surface);
                Ok(Creation::Created { chain })
            },
            Provision::Create { access, size } => {
                Ok(Creation::NeedsSurface { access, size, pending: PendingChain { chain } })
            },
            Provision::Refused { error } => Err(Error::Refused(error)),
        }
    }

    /// Goes on with the surfaces to destroy.
    fn destroy_next(&mut self) -> (step: Step<H, P::Error>)
        ensures
            old(self)@.destroys_next(final(self)@, step),
            final(self)@.wf(),
    {
        if self.doomed.len() == 0 {
            self.stage = Stage::Idle;
            Step::Done(Ok(()))
        } else {
            let surface = self.doomed.remove(0);
            self.stage = Stage::Destroying;
            proof {
                assert(self.doomed@ == old(self).doomed@.drop_first());
            }
            Step::Ask(Request::DestroySurface { surface })
        }
    }

    /// Has the surfaces destroyed that the backend released, if it did not refuse.
    fn destroy_released(&mut self, released: Result<Vec<Surface<H>>, P::Error>) -> (step: Step<
        H,
        P::Error,
    >)
        ensures
            old(self)@.destroys(released_surfaces(released), final(self)@, step),
            final(self)@.provider == old(self)@.provider,
            final(self)@.wf(),
    {
        match released {
            Ok(surfaces) => {
                self.doomed = surfaces;
                self.destroy_next()
            },
            Err(error) => self.stop(Stage::Idle, error),
        }
    }

    /// Makes `front` the front buffer.
    fn present(&mut self, front: Surface<H>) -> (step: Step<H, P::Error>)
        ensures
            old(self)@.presents(front, final(self)@, step),
            final(self)@.wf(),
    {
        let released = self.surface_provider.set_front_buffer(self.context_id, front);
        let ghost surfaces = released_surfaces(released);
        let step = self.destroy_released(released);
        proof {
            assert(P::front_buffer_set(
                old(self)@.provider,
                old(self)@.context_id,
                front,
                self@.provider,
                surfaces,
            ));
        }
        step
    }

    /// Makes `back` the back buffer, and the old back buffer the front buffer.
    fn exchange(&mut self, back: Surface<H>) -> (step: Step<H, P::Error>)
        requires
            old(self)@.doomed.len() == 0,
        ensures
            old(self)@.exchanges(back, final(self)@, step),
            final(self)@.wf(),
    {
        match self.unattached_surface.take() {
            Some(front) => {
                self.unattached_surface = Some(back);
                self.present(front)
            },
            None => {
                self.stage = Stage::SwapUnbinding { back };
                Step::Ask(Request::UnbindSurface)
            },
        }
    }

    /// Makes `back` the back buffer of size `size`, and has the old one destroyed.
    fn replace_back_buffer(&mut self, size: Size2D, back: Surface<H>) -> (step: Step<H, P::Error>)
        requires
            old(self)@.doomed.len() == 0,
        ensures
            old(self)@.resizes(size, back, final(self)@, step),
            final(self)@.wf(),
    {
        match self.unattached_surface.take() {
            Some(replaced) => {
                self.unattached_surface = Some(back);
                self.stage = Stage::ResizeDestroying { size };
                Step::Ask(Request::DestroySurface { surface: replaced })
            },
            None => {
                self.stage = Stage::ResizeUnbinding { size, back };
                Step::Ask(Request::UnbindSurface)
            },
        }
    }

    /// Has the surfaces of the backend destroyed.
    fn release(&mut self) -> (step: Step<H, P::Error>)
        ensures
            old(self)@.releases(final(self)@, step),
            final(self)@.wf(),
    {
        let released = self.surface_provider.destroy_all_surfaces();
        let ghost surfaces = released_surfaces(released);
        let step = self.destroy_released(released);
        proof {
            assert(P::all_surfaces_released(old(self)@.provider, self@.provider, surfaces));
        }
        step
    }

    /// Gives the operation at `stage` up.
    fn stop(&mut self, stage: Stage<H>, error: P::Error) -> (step: Step<H, P::Error>)
        ensures
            final(self)@ == old(self)@.at(stage).given_up(),
            step == Step::<H, P::Error>::Done(Err(Error::Refused(error))),
    {
        self.stage = stage;
        self.abandon();
        Step::Done(Err(Error::Refused(error)))
    }

    /// Goes to `stage`, to wait for the answer to `request`.
    fn ask(&mut self, stage: Stage<H>, request: Request<H>) -> (step: Step<H, P::Error>)
        ensures
            final(self)@ == old(self)@.at(stage),
            step == Step::<H, P::Error>::Ask(request),
    {
        self.stage = stage;
        Step::Ask(request)
    }

    /// Swap the back and front buffers.
    /// Called by the producer.
    /// Gives an error if `context_id` is not the producer context for this swap chain.
    pub fn swap_buffers(&mut self, context_id: ContextID) -> (step: Step<H, P::Error>)
        requires
            old(self)@.at_rest(),
        ensures
            old(self)@.swap_starts(context_id, final(self)@, step),
            final(self)@.wf(),
    {
        if let Err(error) = self.validate_context(context_id) {
            return Step::Done(Err(error));
        }

        // Recycle the old front buffer
        self.surface_provider.recycle_front_buffer(self.context_id);
        let ghost recycled = self@.provider;

        // Fetch a new back buffer, recycling presented buffers if possible.
        let provision = self.surface_provider.provide_surface(self.context_id, self.size);
        let ghost provider = self@.provider;
        proof {
            assert(P::front_buffer_recycled(old(self)@.provider, self@.context_id, recycled));
            assert(P::surface_provided(
                recycled,
                self@.context_id,
                old(self)@.size,
                provider,
                provision,
            ));
        }

        // Swap the buffers
        match provision {
            Provision::Recycled { surface } => self.exchange(surface),
            Provision::Create { access, size } => self.ask(
                Stage::SwapCreating,
                Request::CreateSurface { access, size },
            ),
            Provision::Refused { error } => Step::Done(Err(Error::Refused(error))),
        }
    }

    /// Resize the swap chain.
    /// This creates a new back buffer of the appropriate size,
    /// and destroys the old one.
    /// Called by the producer.
    /// Gives an error if `context_id` is not the producer context for this swap chain.
    /// Gives an error if `size` is smaller than (1, 1).
    pub fn resize(&mut self, context_id: ContextID, size: Size2D) -> (step: Step<H, P::Error>)
        requires
            old(self)@.at_rest(),
        ensures
            old(self)@.resize_starts(context_id, size, final(self)@, step),
            final(self)@.wf(),
    {
        if let Err(error) = self.validate_context(context_id) {
            return Step::Done(Err(error));
        }
        if (size.width < 1) || (size.height < 1) {
            return Step::Done(Err(Error::Failed));
        }
        let provision = self.surface_provider.create_sized_surface(size);
        proof {
            assert(P::sized_surface_created(
                old(self)@.provider,
                size,
                self@.provider,
                provision,
            ));
        }
        match provision {
            Provision::Recycled { surface } => self.replace_back_buffer(size, surface),
            Provision::Create { access, size: asked } => self.ask(
                Stage::ResizeCreating { size },
                Request::CreateSurface { access, size: asked },
            ),
            Provision::Refused { error } => Step::Done(Err(Error::Refused(error))),
        }
    }

    /// Clear the current back buffer.
    /// Called by the producer.
    /// Gives an error if `context_id` is not the producer context for this swap chain.
    pub fn clear_surface(&mut self, context_id: ContextID) -> (step: Step<H, P::Error>)
        requires
            old(self)@.at_rest(),
        ensures
            old(self)@.clear_starts(context_id, final(self)@, step),
            final(self)@.wf(),
    {
        if let Err(error) = self.validate_context(context_id) {
            return Step::Done(Err(error));
        }
        self.ask(Stage::ClearSaving, Request::SaveGlState)
    }

    /// Destroy the swap chain.
    /// Called by the producer.
    /// Gives an error if `context_id` is not the producer context for this swap chain.
    pub fn destroy(&mut self, context_id: ContextID) -> (step: Step<H, P::Error>)
        requires
            old(self)@.at_rest(),
        ensures
            old(self)@.destroy_starts(context_id, final(self)@, step),
            final(self)@.wf(),
    {
        if let Err(error) = self.validate_context(context_id) {
            return Step::Done(Err(error));
        }
        match self.unattached_surface.take() {
            Some(surface) => self.ask(
                Stage::DestroyingBack,
                Request::DestroySurface { surface },
            ),
            None => self.release(),
        }
    }

    /// Swap the attached swap chain.
    /// Called by the producer.
    /// Gives an error if `context_id` is not the producer context for both swap chains.
    /// Gives an error if this swap chain is attached, or the other swap chain is detached.
    pub fn take_attachment_from<Q: SurfaceProvider<H>>(
        &mut self,
        context_id: ContextID,
        other: &SwapChain<H, Q>,
    ) -> (step: Step<H, P::Error>)
        requires
            old(self)@.at_rest(),
        ensures
            old(self)@.attachment_starts(context_id, other@, final(self)@, step),
            final(self)@.wf(),
    {
        if let Err(error) = self.validate_context(context_id) {
            return Step::Done(Err(error));
        }
        if let Err(error) = other.validate_context(context_id) {
            return Step::Done(Err(error));
        }
        if other.unattached_surface.is_some() {
            return Step::Done(Err(Error::Failed));
        }
        match self.unattached_surface.take() {
            Some(surface) => self.ask(
                Stage::AttachUnbinding { surface },
                Request::UnbindSurface,
            ),
            None => Step::Done(Err(Error::Failed)),
        }
    }

    /// Takes the stage of the running operation out of the swap chain.
    fn take_stage(&mut self) -> (stage: Stage<H>)
        ensures
            stage == old(self)@.stage,
            final(self)@ == old(self)@.at(Stage::Idle),
    {
        let mut stage = Stage::Idle;
        core::mem::swap(&mut stage, &mut self.stage);
        stage
    }

    /// Goes on with the running operation, on the device's answer to the last request.
    pub fn resume(&mut self, reply: Reply<H, P::Error>) -> (step: Step<H, P::Error>)
        requires
            old(self)@.wf(),
            old(self)@.stage.awaits(reply),
            !old(self)@.stage.attaching(),
        ensures
            old(self)@.resumes(reply, final(self)@, step),
            final(self)@.wf(),
    {
        let stage = self.take_stage();
        match (stage, reply) {
            (stage, Reply::Created(Err(error))) => self.stop(stage, error),
            (stage, Reply::Destroyed(Err(error))) => self.stop(stage, error),
            (stage, Reply::Unbound(Err(error))) => self.stop(stage, error),
            (stage, Reply::Bound(Err(error))) => self.stop(stage, error),

            (Stage::SwapCreating, Reply::Created(Ok(back))) => {
                let ghost taken = self@;
                let step = self.exchange(back);
                proof {
                    taken.exchange_forgets_stage(old(self)@.stage, back, self@, step);
                }
                step
            },
            (Stage::SwapUnbinding { back }, Reply::Unbound(Ok(Some(front)))) => self.ask(
                Stage::SwapBinding { front },
                Request::BindSurface { surface: back },
            ),
            (Stage::SwapBinding { front }, Reply::Bound(Ok(()))) => self.present(front),
            (Stage::Destroying, Reply::Destroyed(Ok(()))) => self.destroy_next(),

            (Stage::ResizeCreating { size }, Reply::Created(Ok(back))) => {
                self.replace_back_buffer(size, back)
            },
            (Stage::ResizeUnbinding { size, back }, Reply::Unbound(Ok(Some(replaced)))) => {
                self.ask(
                    Stage::ResizeBinding { size, replaced },
                    Request::BindSurface { surface: back },
                )
            },
            (Stage::ResizeBinding { size, replaced }, Reply::Bound(Ok(()))) => self.ask(
                Stage::ResizeDestroying { size },
                Request::DestroySurface { surface: replaced },
            ),
            (Stage::ResizeDestroying { size }, Reply::Destroyed(Ok(()))) => {
                self.size = size;
                Step::Done(Ok(()))
            },

            // Make the back buffer the current surface
            (Stage::ClearSaving, Reply::Saved(state)) => {
                match self.unattached_surface.take() {
                    Some(back) => self.ask(
                        Stage::ClearUnbinding { state, back },
                        Request::UnbindSurface,
                    ),
                    None => self.ask(
                        Stage::ClearLocating { state, previous: None },
                        Request::FindFramebuffer,
                    ),
                }
            },
            (Stage::ClearUnbinding { state, back }, Reply::Unbound(Ok(previous))) => self.ask(
                Stage::ClearBinding { state, previous },
                Request::BindSurface { surface: back },
            ),
            (Stage::ClearBinding { state, previous }, Reply::Bound(Ok(()))) => self.ask(
                Stage::ClearLocating { state, previous },
                Request::FindFramebuffer,
            ),
            // Clear it
            (Stage::ClearLocating { state, previous }, Reply::Framebuffer(framebuffer)) => {
                self.ask(Stage::Clearing { state, previous }, Request::Clear { framebuffer })
            },
            // Reattach the old surface
            (Stage::Clearing { state, previous }, Reply::Cleared) => match previous {
                Some(reattach) => self.ask(
                    Stage::ReattachUnbinding { state, reattach },
                    Request::UnbindSurface,
                ),
                None => self.ask(Stage::Restoring, Request::RestoreGlState { state }),
            },
            (Stage::ReattachUnbinding { state, reattach }, Reply::Unbound(Ok(Some(back)))) => {
                self.ask(
                    Stage::ReattachBinding { state, back },
                    Request::BindSurface { surface: reattach },
                )
            },
            // Restore the GL state
            (Stage::ReattachBinding { state, back }, Reply::Bound(Ok(()))) => {
                self.unattached_surface = Some(back);
                self.ask(Stage::Restoring, Request::RestoreGlState { state })
            },
            (Stage::Restoring, Reply::Restored) => Step::Done(Ok(())),

            (Stage::DestroyingBack, Reply::Destroyed(Ok(()))) => self.release(),
            _ => {
                proof {
                    assert(false);
                }
                Step::Done(Err(Error::Failed))
            },
        }
    }

    /// Goes on with [`SwapChain::take_attachment_from`], on the device's answer to the last
    /// request. `other` is the swap chain that the attachment is taken from.
    pub fn resume_attachment<Q: SurfaceProvider<H>>(
        &mut self,
        other: &mut SwapChain<H, Q>,
        reply: Reply<H, P::Error>,
    ) -> (step: Step<H, P::Error>)
        requires
            old(self)@.wf(),
            old(self)@.stage.awaits(reply),
            old(self)@.stage.attaching(),
            old(other)@.unattached is None,
            old(other)@.context_id == old(self)@.context_id,
        ensures
            old(self)@.attachment_resumes(
                old(other)@,
                reply,
                final(self)@,
                final(other)@,
                step,
            ),
            final(self)@.wf(),
    {
        let stage = self.take_stage();
        match (stage, reply) {
            (stage, Reply::Unbound(Err(error))) => self.stop(stage, error),
            (Stage::AttachBinding { detached }, Reply::Bound(Err(error))) => {
                other.unattached_surface = Some(detached);
                self.stop(Stage::Idle, error)
            },
            (Stage::AttachUnbinding { surface }, Reply::Unbound(Ok(Some(detached)))) => self.ask(
                Stage::AttachBinding { detached },
                Request::BindSurface { surface },
            ),
            (Stage::AttachBinding { detached }, Reply::Bound(Ok(()))) => {
                other.unattached_surface = Some(detached);
                Step::Done(Ok(()))
            },
            _ => {
                proof {
                    assert(false);
                }
                Step::Done(Err(Error::Failed))
            },
        }
    }
}

impl<H, P: SurfaceProvider<H>> PendingChain<H, P> {
    /// Finishes [`SwapChain::create_detached`] on the device's answer: the back buffer, or an
    /// error.
    pub fn finish(self, reply: Result<Surface<H>, P::Error>) -> (result: Result<
        SwapChain<H, P>,
        Error<P::Error>,
    >)
        ensures
            match reply {
                Ok(surface) => {
                    &&& result is Ok
                    &&& result->Ok_0@ == (ChainState { unattached: Some(surface), ..self@ })
                },
                Err(error) => result == Err::<SwapChain<H, P>, Error<P::Error>>(
                    Error::Refused(error),
                ),
            },
    {
        match reply {
            Ok(surface) => {
                let mut chain = self.chain;
                chain.unattached_surface = Some(surface);
                Ok(chain)
            },
            Err(error) => Err(Error::Refused(error)),
        }
    }
}

} // verus!
