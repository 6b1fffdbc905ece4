//! Where the surfaces of a swap chain come from.

use core::marker::PhantomData;
use vstd::prelude::*;

use crate::surface::{ContextID, Size2D, Surface, SurfaceAccess};

verus! {

/// How a provider meets the demand for a surface.
#[derive(Debug)]
pub enum Provision<H, E> {
    /// With a surface that it already holds.
    Recycled { surface: Surface<H> },
    /// With a surface that the device has to create.
    Create { access: SurfaceAccess, size: Size2D },
    /// Not at all.
    Refused { error: E },
}

/// The surfaces that a provider released, if it did not refuse.
pub open spec fn released_surfaces<H, E>(released: Result<Vec<Surface<H>>, E>) -> Result<
    Seq<Surface<H>>,
    E,
> {
    match released {
        Ok(surfaces) => Ok(surfaces@),
        Err(error) => Err(error),
    }
}

/// A swap chain backend that manages the surfaces used by that swap chain.
///
/// The backend decides which surfaces are created, reused and destroyed; the swap chain has the
/// device carry this out. What each method does to the backend, and what it answers, the backend
/// says itself, in the relation that goes with the method.
pub trait SurfaceProvider<H>: Sized {
    /// The error type of the backend, and of the device that it works with.
    type Error;

    /// What [`SurfaceProvider::recycle_front_buffer`] may do.
    spec fn front_buffer_recycled(before: Self, context_id: ContextID, after: Self) -> bool;

    /// What [`SurfaceProvider::recycle_surface`] may do.
    spec fn surface_recycled(before: Self, surface: Surface<H>, after: Self) -> bool;

    /// What [`SurfaceProvider::provide_surface`] may do.
    spec fn surface_provided(
        before: Self,
        context_id: ContextID,
        size: Size2D,
        after: Self,
        provision: Provision<H, Self::Error>,
    ) -> bool;

    /// What [`SurfaceProvider::take_front_buffer`] may do.
    spec fn front_buffer_taken(before: Self, after: Self, taken: Option<Surface<H>>) -> bool;

    /// What [`SurfaceProvider::set_front_buffer`] may do.
    spec fn front_buffer_set(
        before: Self,
        context_id: ContextID,
        new_front_buffer: Surface<H>,
        after: Self,
        released: Result<Seq<Surface<H>>, Self::Error>,
    ) -> bool;

    /// What [`SurfaceProvider::create_sized_surface`] may do.
    spec fn sized_surface_created(
        before: Self,
        size: Size2D,
        after: Self,
        provision: Provision<H, Self::Error>,
    ) -> bool;

    /// What [`SurfaceProvider::destroy_all_surfaces`] may do.
    spec fn all_surfaces_released(
        before: Self,
        after: Self,
        released: Result<Seq<Surface<H>>, Self::Error>,
    ) -> bool;

    /// A notification that any previous front buffer can be recycled. `context_id` is the producer
    /// context.
    fn recycle_front_buffer(&mut self, context_id: ContextID)
        ensures
            Self::front_buffer_recycled(*old(self), context_id, *final(self)),
    ;

    /// A notification to recycle the provided surface.
    fn recycle_surface(&mut self, surface: Surface<H>)
        ensures
            Self::surface_recycled(*old(self), surface, *final(self)),
    ;

    /// The swap chain of the producer context `context_id` requires a new surface.
    fn provide_surface(&mut self, context_id: ContextID, size: Size2D) -> (provision: Provision<
        H,
        Self::Error,
    >)
        ensures
            Self::surface_provided(*old(self), context_id, size, *final(self), provision),
    ;

    /// Obtain the current front buffer surface from this provider.
    fn take_front_buffer(&mut self) -> (taken: Option<Surface<H>>)
        ensures
            Self::front_buffer_taken(*old(self), *final(self), taken),
    ;

    /// Inform the provider of the new front buffer surface of the producer context `context_id`.
    /// The surfaces that it answers are to be destroyed, first to last.
    fn set_front_buffer(&mut self, context_id: ContextID, new_front_buffer: Surface<H>) -> (
        released: Result<Vec<Surface<H>>, Self::Error>)
        ensures
            Self::front_buffer_set(
                *old(self),
                context_id,
                new_front_buffer,
                *final(self),
                released_surfaces(released),
            ),
    ;

    /// Ask for a new surface with the desired size.
    fn create_sized_surface(&mut self, size: Size2D) -> (provision: Provision<H, Self::Error>)
        ensures
            Self::sized_surface_created(*old(self), size, *final(self), provision),
    ;

    /// Give up all surfaces. The surfaces that it answers are to be destroyed, first to last.
    fn destroy_all_surfaces(&mut self) -> (released: Result<
        Vec<Surface<H>>,
        Self::Error,
    >)
        ensures
            Self::all_surfaces_released(*old(self), *final(self), released_surfaces(released)),
    ;
}

/// A provider that keeps the surfaces that have been displayed, and reuses those of the right
/// size.
#[derive(Debug)]
pub struct SurfmanProvider<H, E> {
    // The surface access mode for the context.
    surface_access: SurfaceAccess,
    // Some if the producing context has finished drawing a new front buffer, ready to be
    // displayed.
    pending_surface: Option<Surface<H>>,
    // All of the surfaces that have already been displayed, ready to be recycled.
    recycled_surfaces: Vec<Surface<H>>,
    // The error type of the device; the provider itself never refuses.
    error: PhantomData<E>,
}

/// What a [`SurfmanProvider`] holds.
#[verifier::ext_equal]
pub ghost struct SurfmanPool<H> {
    /// The access mode of the surfaces that it asks for.
    pub access: SurfaceAccess,
    /// The front buffer, until a consumer takes it.
    pub pending: Option<Surface<H>>,
    /// The surfaces that wait for reuse, in the order in which they were handed back.
    pub recycled: Seq<Surface<H>>,
}

/// Whether `index` is the first place of `surfaces` that has a surface of size `size`.
pub open spec fn is_first_of_size<H>(
    surfaces: Seq<Surface<H>>,
    size: Size2D,
    index: int,
) -> bool {
    &&& 0 <= index < surfaces.len()
    &&& surfaces[index].size == size
    &&& forall|i: int| 0 <= i < index ==> (#[trigger] surfaces[i]).size != size
}

/// `surfaces` without the one at `index`, whose place the last one takes.
pub open spec fn swap_removed<H>(surfaces: Seq<Surface<H>>, index: int) -> Seq<Surface<H>> {
    surfaces.update(index, surfaces.last()).drop_last()
}

impl<H> SurfmanPool<H> {
    /// The pool once the front buffer, if there is one, waits for reuse.
    pub open spec fn front_recycled(self) -> SurfmanPool<H> {
        match self.pending {
            Some(surface) => SurfmanPool {
                pending: None,
                recycled: self.recycled.push(surface),
                ..self
            },
            None => self,
        }
    }

    /// Whether the pool meets the demand for a surface of size `size` with `provision`, and is
    /// `after` then: with the first surface of that size that waits for reuse, or by a request
    /// for a new one if none is waiting.
    pub open spec fn provides<E>(
        self,
        size: Size2D,
        after: SurfmanPool<H>,
        provision: Provision<H, E>,
    ) -> bool {
        match provision {
            Provision::Recycled { surface } => exists|index: int|
                {
                    &&& #[trigger] is_first_of_size(self.recycled, size, index)
                    &&& surface == self.recycled[index]
                    &&& after == SurfmanPool {
                        recycled: swap_removed(self.recycled, index),
                        ..self
                    }
                },
            Provision::Create { access, size: asked } => {
                &&& forall|i: int|
                    0 <= i < self.recycled.len() ==> (#[trigger] self.recycled[i]).size != size
                &&& access == self.access
                &&& asked == size
                &&& after == self
            },
            Provision::Refused { .. } => false,
        }
    }

    /// The surface that a consumer takes: the front buffer, or else the one that was handed back
    /// last.
    pub open spec fn next_taken(self) -> Option<Surface<H>> {
        match self.pending {
            Some(surface) => Some(surface),
            None => if self.recycled.len() > 0 {
                Some(self.recycled.last())
            } else {
                None
            },
        }
    }

    /// The pool once a consumer has taken [`SurfmanPool::next_taken`].
    pub open spec fn after_take(self) -> SurfmanPool<H> {
        match self.pending {
            Some(surface) => SurfmanPool { pending: None, ..self },
            None => if self.recycled.len() > 0 {
                SurfmanPool { recycled: self.recycled.drop_last(), ..self }
            } else {
                self
            },
        }
    }

    /// Every surface of the pool, the front buffer first.
    pub open spec fn all_surfaces(self) -> Seq<Surface<H>> {
        match self.pending {
            Some(surface) => seq![surface] + self.recycled,
            None => self.recycled,
        }
    }

    /// The pool without any surface.
    pub open spec fn emptied(self) -> SurfmanPool<H> {
        SurfmanPool { pending: None, recycled: seq![], ..self }
    }
}

impl<H, E> View for SurfmanProvider<H, E> {
    type V = SurfmanPool<H>;

    closed spec fn view(&self) -> SurfmanPool<H> {
        SurfmanPool {
            access: self.surface_access,
            pending: self.pending_surface,
            recycled: self.recycled_surfaces@,
        }
    }
}

impl<H, E> SurfmanProvider<H, E> {
    /// A provider without any surface, which asks for surfaces of the given access mode.
    pub fn new(surface_access: SurfaceAccess) -> (provider: Self)
        ensures
            provider@ == (SurfmanPool {
                access: surface_access,
                pending: None::<Surface<H>>,
                recycled: seq![],
            }),
    {
        SurfmanProvider {
            surface_access,
            pending_surface: None,
            recycled_surfaces: Vec::new(),
            error: PhantomData,
        }
    }

    /// The first place of a surface of size `size` among those that wait for reuse.
    fn position(&self, size: Size2D) -> (found: Option<usize>)
        ensures
            match found {
                Some(index) => is_first_of_size(self@.recycled, size, index as int),
                None => forall|i: int|
                    0 <= i < self@.recycled.len() ==> (#[trigger] self@.recycled[i]).size != size,
            },
    {
        let mut index: usize = 0;
        while index < self.recycled_surfaces.len()
            invariant
                index <= self.recycled_surfaces@.len(),
                forall|i: int|
                    0 <= i < index ==> (#[trigger] self.recycled_surfaces@[i]).size != size,
            decreases self.recycled_surfaces@.len() - index,
        {
            if self.recycled_surfaces[index].size == size {
                return Some(index);
            }
            index += 1;
        }
        None
    }
}

impl<H, E> SurfaceProvider<H> for SurfmanProvider<H, E> {
    type Error = E;

    open spec fn front_buffer_recycled(
        before: Self,
        context_id: ContextID,
        after: Self,
    ) -> bool {
        after@ == before@.front_recycled()
    }

    open spec fn surface_recycled(before: Self, surface: Surface<H>, after: Self) -> bool {
        after@ == SurfmanPool { recycled: before@.recycled.push(surface), ..before@ }
    }

    open spec fn surface_provided(
        before: Self,
        context_id: ContextID,
        size: Size2D,
        after: Self,
        provision: Provision<H, E>,
    ) -> bool {
        before@.provides(size, after@, provision)
    }

    open spec fn front_buffer_taken(
        before: Self,
        after: Self,
        taken: Option<Surface<H>>,
    ) -> bool {
        &&& taken == before@.next_taken()
        &&& after@ == before@.after_take()
    }

    open spec fn front_buffer_set(
        before: Self,
        context_id: ContextID,
        new_front_buffer: Surface<H>,
        after: Self,
        released: Result<Seq<Surface<H>>, E>,
    ) -> bool {
        &&& released == Ok::<Seq<Surface<H>>, E>(before@.recycled)
        &&& after@ == SurfmanPool {
            pending: Some(new_front_buffer),
            recycled: seq![],
            ..before@
        }
    }

    open spec fn sized_surface_created(
        before: Self,
        size: Size2D,
        after: Self,
        provision: Provision<H, E>,
    ) -> bool {
        &&& provision == Provision::<H, E>::Create { access: before@.access, size }
        &&& after@ == before@
    }

    open spec fn all_surfaces_released(
        before: Self,
        after: Self,
        released: Result<Seq<Surface<H>>, E>,
    ) -> bool {
        &&& released == Ok::<Seq<Surface<H>>, E>(before@.all_surfaces())
        &&& after@ == before@.emptied()
    }

    fn recycle_front_buffer(&mut self, context_id: ContextID) {
        if let Some(old_front_buffer) = self.pending_surface.take() {
            self.recycle_surface(old_front_buffer);
        }
    }

    fn recycle_surface(&mut self, surface: Surface<H>) {
        self.recycled_surfaces.push(surface);
    }

    fn provide_surface(&mut self, context_id: ContextID, size: Size2D) -> (provision: Provision<
        H,
        E,
    >) {
        match self.position(size) {
            Some(index) => {
                let surface = self.recycled_surfaces.swap_remove(index);
                proof {
                    assert(is_first_of_size(old(self)@.recycled, size, index as int));
                }
                Provision::Recycled { surface }
            },
            None => Provision::Create { access: self.surface_access, size },
        }
    }

    fn take_front_buffer(&mut self) -> (taken: Option<Surface<H>>) {
        match self.pending_surface.take() {
            Some(surface) => Some(surface),
            None => self.recycled_surfaces.pop(),
        }
    }

    fn set_front_buffer(&mut self, context_id: ContextID, new_front_buffer: Surface<H>) -> (
        released: Result<Vec<Surface<H>>, E>) {
        self.pending_surface = Some(new_front_buffer);
        let mut released = Vec::new();
        released.append(&mut self.recycled_surfaces);
        Ok(released)
    }

    fn create_sized_surface(&mut self, size: Size2D) -> (provision: Provision<H, E>) {
        Provision::Create { access: self.surface_access, size }
    }

    fn destroy_all_surfaces(&mut self) -> (released: Result<
        Vec<Surface<H>>,
        E,
    >) {
        let mut released = Vec::new();
        if let Some(surface) = self.pending_surface.take() {
            released.push(surface);
        }
        released.append(&mut self.recycled_surfaces);
        Ok(released)
    }
}

/// A surface that was handed back is reused: as long as a surface of the right size waits, the
/// device is not asked for another one.
pub proof fn recycled_surfaces_are_reused<H, E>(
    pool: SurfmanPool<H>,
    index: int,
    after: SurfmanPool<H>,
    provision: Provision<H, E>,
)
    requires
        0 <= index < pool.recycled.len(),
        pool.provides(pool.recycled[index].size, after, provision),
    ensures
        provision is Recycled,
        after.recycled.len() == pool.recycled.len() - 1,
{
}

/// The surface that meets a demand has the size that was asked for, or is yet to be created in
/// that size.
pub proof fn provisions_fit<H, E>(
    pool: SurfmanPool<H>,
    size: Size2D,
    after: SurfmanPool<H>,
    provision: Provision<H, E>,
)
    requires
        pool.provides(size, after, provision),
    ensures
        match provision {
            Provision::Recycled { surface } => surface.size == size,
            Provision::Create { access, size: asked } => asked == size,
            Provision::Refused { error } => false,
        },
{
}

/// A pool can meet a demand in one way only.
pub proof fn provisions_are_determined<H, E>(
    pool: SurfmanPool<H>,
    size: Size2D,
    after: SurfmanPool<H>,
    provision: Provision<H, E>,
    other_after: SurfmanPool<H>,
    other_provision: Provision<H, E>,
)
    requires
        pool.provides(size, after, provision),
        pool.provides(size, other_after, other_provision),
    ensures
        after == other_after,
        provision == other_provision,
{
    if provision is Recycled && other_provision is Recycled {
        let index = choose|index: int|
            {
                &&& #[trigger] is_first_of_size(pool.recycled, size, index)
                &&& provision->surface == pool.recycled[index]
                &&& after == SurfmanPool {
                    recycled: swap_removed(pool.recycled, index),
                    ..pool
                }
            };
        let other_index = choose|index: int|
            {
                &&& #[trigger] is_first_of_size(pool.recycled, size, index)
                &&& other_provision->surface == pool.recycled[index]
                &&& other_after == SurfmanPool {
                    recycled: swap_removed(pool.recycled, index),
                    ..pool
                }
            };
        assert(index == other_index) by {
            if index < other_index {
                assert(pool.recycled[index].size != size);
            } else if other_index < index {
                assert(pool.recycled[other_index].size != size);
            }
        }
    }
}

/// A front buffer that a consumer takes and hands back leaves the pool as if it had been
/// recycled without being displayed.
pub proof fn displayed_surfaces_come_back<H>(pool: SurfmanPool<H>)
    requires
        pool.pending is Some,
    ensures
        pool.next_taken() == pool.pending,
        (SurfmanPool {
            recycled: pool.after_take().recycled.push(pool.next_taken()->0),
            ..pool.after_take()
        }) == pool.front_recycled(),
{
}

/// A surface that was handed back while no front buffer is pending is the next one that a
/// consumer takes.
pub proof fn last_recycled_is_first_taken<H>(pool: SurfmanPool<H>, surface: Surface<H>)
    requires
        pool.pending is None,
    ensures
        ({
            let recycled = SurfmanPool { recycled: pool.recycled.push(surface), ..pool };
            &&& recycled.next_taken() == Some(surface)
            &&& recycled.after_take() == pool
        }),
{
    assert(pool.recycled.push(surface).drop_last() == pool.recycled);
}

} // verus!
