//! What [`SurfmanProvider`] does with the surfaces that it is given.
//!
//! The laws speak of calls of its methods: of what a provider holds before and after a call, and
//! of what the call returns.

use vstd::prelude::*;

use crate::accounts::{at_most_one, pooled};
use crate::provider::{Provision, SurfaceProvider, SurfmanPool, SurfmanProvider};
use crate::surface::{ContextID, Size2D, Surface, SurfaceAccess};

verus! {

/// A new provider holds no surface, and will ask for surfaces of the access mode that it was made
/// with.
pub proof fn new_providers_are_empty<H, E>(
    access: SurfaceAccess,
    provider: SurfmanProvider<H, E>,
)
    requires
        call_ensures(SurfmanProvider::<H, E>::new, (access,), provider),
    ensures
        provider@.access == access,
        provider@.pending is None,
        provider@.recycled.len() == 0,
{
}

/// A consumer takes the pending front buffer, if there is one, whatever else waits for reuse; else
/// the surface that was handed back last; and nothing only if the provider holds nothing. What it
/// takes leaves the provider, and nothing else does.
pub proof fn front_buffers_are_taken_first<H, E>(
    provider: &mut SurfmanProvider<H, E>,
    taken: Option<Surface<H>>,
)
    requires
        call_ensures(
            <SurfmanProvider<H, E> as SurfaceProvider<H>>::take_front_buffer,
            (provider,),
            taken,
        ),
    ensures
        old(provider)@.pending is Some ==> {
            &&& taken == old(provider)@.pending
            &&& final(provider)@.recycled == old(provider)@.recycled
        },
        old(provider)@.pending is None && old(provider)@.recycled.len() > 0 ==> {
            &&& taken is Some
            &&& final(provider)@.recycled.push(taken->0) == old(provider)@.recycled
        },
        taken is None <==> old(provider)@.pending is None && old(provider)@.recycled.len() == 0,
        taken is None ==> final(provider)@.recycled.len() == 0,
        final(provider)@.pending is None,
        final(provider)@.access == old(provider)@.access,
        pooled(old(provider)@) == pooled(final(provider)@).add(at_most_one(taken)),
{
    broadcast use vstd::multiset::group_multiset_axioms;

    let before = old(provider)@;
    let after = final(provider)@;
    if before.pending is None && before.recycled.len() > 0 {
        assert(after.recycled.push(taken->0) =~= before.recycled);
        vstd::seq_lib::to_multiset_build(after.recycled, taken->0);
    }
    assert(pooled(before) =~= pooled(after).add(at_most_one(taken)));
}

/// A surface that a consumer hands back is kept, whatever its size: the provider has it in
/// addition to what it had, behind the surfaces that were handed back before. The front buffer
/// stays.
pub proof fn handed_back_surfaces_are_kept<H, E>(
    provider: &mut SurfmanProvider<H, E>,
    surface: Surface<H>,
)
    requires
        call_ensures(
            <SurfmanProvider<H, E> as SurfaceProvider<H>>::recycle_surface,
            (provider, surface),
            (),
        ),
    ensures
        pooled(final(provider)@) == pooled(old(provider)@).insert(surface),
        final(provider)@.pending == old(provider)@.pending,
        final(provider)@.recycled.len() > 0,
        final(provider)@.recycled.last() == surface,
        final(provider)@.recycled.drop_last() == old(provider)@.recycled,
        final(provider)@.access == old(provider)@.access,
{
    broadcast use vstd::multiset::group_multiset_axioms;

    assert(final(provider)@.recycled.drop_last() =~= old(provider)@.recycled);
    vstd::seq_lib::to_multiset_build(old(provider)@.recycled, surface);
    assert(final(provider)@.recycled =~= old(provider)@.recycled.push(surface));
    assert(pooled(final(provider)@) =~= pooled(old(provider)@).insert(surface));
}

/// Recycling the front buffer makes it the last of the surfaces that wait for reuse. No surface
/// is lost, and no front buffer is left.
pub proof fn front_buffers_are_recycled<H, E>(
    provider: &mut SurfmanProvider<H, E>,
    context_id: ContextID,
)
    requires
        call_ensures(
            <SurfmanProvider<H, E> as SurfaceProvider<H>>::recycle_front_buffer,
            (provider, context_id),
            (),
        ),
    ensures
        pooled(final(provider)@) == pooled(old(provider)@),
        final(provider)@.pending is None,
        old(provider)@.pending is Some ==> {
            &&& final(provider)@.recycled.len() > 0
            &&& final(provider)@.recycled.last() == old(provider)@.pending->0
            &&& final(provider)@.recycled.drop_last() == old(provider)@.recycled
        },
        old(provider)@.pending is None ==> final(provider)@.recycled == old(provider)@.recycled,
        final(provider)@.access == old(provider)@.access,
{
    broadcast use vstd::multiset::group_multiset_axioms;

    if let Some(front) = old(provider)@.pending {
        assert(final(provider)@.recycled.drop_last() =~= old(provider)@.recycled);
        vstd::seq_lib::to_multiset_build(old(provider)@.recycled, front);
        assert(final(provider)@.recycled =~= old(provider)@.recycled.push(front));
    }
    assert(pooled(final(provider)@) =~= pooled(old(provider)@));
}

/// `surfaces` without the one at `index`; the last one fills its place.
pub open spec fn filled_up<H>(surfaces: Seq<Surface<H>>, index: int) -> Seq<Surface<H>> {
    Seq::new(
        (surfaces.len() - 1) as nat,
        |i: int| if i == index {
            surfaces[surfaces.len() - 1]
        } else {
            surfaces[i]
        },
    )
}

/// If surfaces of the size asked for wait for reuse, the one that was handed back first is
/// provided: it leaves the provider, and the last one fills its place. No other surface moves.
pub proof fn waiting_surfaces_are_provided<H, E>(
    provider: &mut SurfmanProvider<H, E>,
    context_id: ContextID,
    size: Size2D,
    provision: Provision<H, E>,
    index: int,
)
    requires
        call_ensures(
            <SurfmanProvider<H, E> as SurfaceProvider<H>>::provide_surface,
            (provider, context_id, size),
            provision,
        ),
        0 <= index < old(provider)@.recycled.len(),
        old(provider)@.recycled[index].size == size,
        forall|i: int| 0 <= i < index ==> (#[trigger] old(provider)@.recycled[i]).size != size,
    ensures
        provision == (Provision::<H, E>::Recycled { surface: old(provider)@.recycled[index] }),
        final(provider)@.recycled == filled_up(old(provider)@.recycled, index),
        final(provider)@.pending == old(provider)@.pending,
        final(provider)@.access == old(provider)@.access,
{
    let recycled = old(provider)@.recycled;
    assert(provision is Recycled);
    let found = choose|found: int|
        {
            &&& #[trigger] crate::provider::is_first_of_size(recycled, size, found)
            &&& provision->surface == recycled[found]
            &&& final(provider)@ == SurfmanPool {
                recycled: crate::provider::swap_removed(recycled, found),
                ..old(provider)@
            }
        };
    assert(found == index) by {
        if index < found {
            assert(recycled[index].size != size);
        } else if found < index {
            assert(recycled[found].size != size);
        }
    }
    assert(final(provider)@.recycled =~= filled_up(recycled, index));
}

/// If no surface of the size asked for waits for reuse, the device is to create one: of that very
/// size, and of the access mode of the provider. The provider stays as it is.
pub proof fn missing_surfaces_are_created<H, E>(
    provider: &mut SurfmanProvider<H, E>,
    context_id: ContextID,
    size: Size2D,
    provision: Provision<H, E>,
)
    requires
        call_ensures(
            <SurfmanProvider<H, E> as SurfaceProvider<H>>::provide_surface,
            (provider, context_id, size),
            provision,
        ),
        forall|i: int|
            0 <= i < old(provider)@.recycled.len() ==> (
            #[trigger] old(provider)@.recycled[i]).size != size,
    ensures
        provision == (Provision::<H, E>::Create { access: old(provider)@.access, size }),
        final(provider)@ == old(provider)@,
{
}

/// A demand for a surface of a given size is met with a new one always: of that very size, and of
/// the access mode of the provider. The provider stays as it is.
pub proof fn sized_surfaces_are_created<H, E>(
    provider: &mut SurfmanProvider<H, E>,
    size: Size2D,
    provision: Provision<H, E>,
)
    requires
        call_ensures(
            <SurfmanProvider<H, E> as SurfaceProvider<H>>::create_sized_surface,
            (provider, size),
            provision,
        ),
    ensures
        provision == (Provision::<H, E>::Create { access: old(provider)@.access, size }),
        final(provider)@ == old(provider)@,
{
}

/// A new front buffer is the pending one from then on. The surfaces that waited for reuse are
/// released, all of them, in the order in which they were handed back; none waits any more.
pub proof fn new_front_buffers_release_the_rest<H, E>(
    provider: &mut SurfmanProvider<H, E>,
    context_id: ContextID,
    front: Surface<H>,
    released: Result<Vec<Surface<H>>, E>,
)
    requires
        call_ensures(
            <SurfmanProvider<H, E> as SurfaceProvider<H>>::set_front_buffer,
            (provider, context_id, front),
            released,
        ),
    ensures
        final(provider)@.pending == Some(front),
        final(provider)@.recycled.len() == 0,
        final(provider)@.access == old(provider)@.access,
        released is Ok,
        released->Ok_0@ == old(provider)@.recycled,
{
}

/// Releasing all surfaces releases the front buffer, if there is one, then the surfaces that wait
/// for reuse, in the order in which they were handed back. None is left.
pub proof fn everything_is_released<H, E>(
    provider: &mut SurfmanProvider<H, E>,
    released: Result<Vec<Surface<H>>, E>,
)
    requires
        call_ensures(
            <SurfmanProvider<H, E> as SurfaceProvider<H>>::destroy_all_surfaces,
            (provider,),
            released,
        ),
    ensures
        released is Ok,
        old(provider)@.pending is Some ==> {
            &&& released->Ok_0@.len() > 0
            &&& released->Ok_0@[0] == old(provider)@.pending->0
            &&& released->Ok_0@.drop_first() == old(provider)@.recycled
        },
        old(provider)@.pending is None ==> released->Ok_0@ == old(provider)@.recycled,
        final(provider)@.pending is None,
        final(provider)@.recycled.len() == 0,
        final(provider)@.access == old(provider)@.access,
{
    if let Some(front) = old(provider)@.pending {
        assert(released->Ok_0@.drop_first() =~= old(provider)@.recycled);
    }
}

/// A surface that was handed back meets the next demand for a surface of its size, so that the
/// device is not asked for one.
pub proof fn handed_back_surfaces_are_provided<H, E>(
    recycling: &mut SurfmanProvider<H, E>,
    surface: Surface<H>,
    providing: &mut SurfmanProvider<H, E>,
    context_id: ContextID,
    provision: Provision<H, E>,
)
    requires
        call_ensures(
            <SurfmanProvider<H, E> as SurfaceProvider<H>>::recycle_surface,
            (recycling, surface),
            (),
        ),
        old(providing)@ == final(recycling)@,
        call_ensures(
            <SurfmanProvider<H, E> as SurfaceProvider<H>>::provide_surface,
            (providing, context_id, surface.size),
            provision,
        ),
    ensures
        provision is Recycled,
        provision->surface.size == surface.size,
        pooled(final(providing)@).insert(provision->surface) == pooled(old(recycling)@).insert(
            surface,
        ),
{
    handed_back_surfaces_are_kept(recycling, surface);
    let recycled = old(providing)@.recycled;
    assert(recycled[recycled.len() - 1] == surface);
    assert(provision is Recycled);
    crate::accounts::provided_multiset(
        old(providing)@,
        surface.size,
        final(providing)@,
        provision,
    );
}

/// A surface that was handed back is among those that are released in the end.
pub proof fn handed_back_surfaces_are_released<H, E>(
    recycling: &mut SurfmanProvider<H, E>,
    surface: Surface<H>,
    releasing: &mut SurfmanProvider<H, E>,
    released: Result<Vec<Surface<H>>, E>,
)
    requires
        call_ensures(
            <SurfmanProvider<H, E> as SurfaceProvider<H>>::recycle_surface,
            (recycling, surface),
            (),
        ),
        old(releasing)@ == final(recycling)@,
        call_ensures(
            <SurfmanProvider<H, E> as SurfaceProvider<H>>::destroy_all_surfaces,
            (releasing,),
            released,
        ),
    ensures
        released is Ok,
        released->Ok_0@.len() > 0,
        released->Ok_0@.last() == surface,
{
    handed_back_surfaces_are_kept(recycling, surface);
    everything_is_released(releasing, released);
    if old(releasing)@.pending is Some {
        assert(released->Ok_0@.drop_first().last() == released->Ok_0@.last());
    }
}

/// Surfaces that are handed back do not come in the way of a front buffer: however many are handed
/// back after it was set, it is what the next consumer takes.
pub proof fn front_buffers_wait_for_the_consumer<H, E>(
    states: Seq<SurfmanProvider<H, E>>,
    surfaces: Seq<Surface<H>>,
    front: Surface<H>,
    taking: &mut SurfmanProvider<H, E>,
    taken: Option<Surface<H>>,
)
    requires
        states.len() == surfaces.len() + 1,
        states[0]@.pending == Some(front),
        forall|i: int|
            0 <= i < surfaces.len() ==> SurfmanProvider::surface_recycled(
                states[i],
                #[trigger] surfaces[i],
                states[i + 1],
            ),
        *old(taking) == states.last(),
        call_ensures(
            <SurfmanProvider<H, E> as SurfaceProvider<H>>::take_front_buffer,
            (taking,),
            taken,
        ),
    ensures
        taken == Some(front),
        final(taking)@.pending is None,
        final(taking)@.recycled == states[0]@.recycled + surfaces,
    decreases surfaces.len(),
{
    if surfaces.len() > 0 {
        let last = surfaces.last();
        let before = states[states.len() - 2];
        assert(SurfmanProvider::surface_recycled(before, last, states.last()));
        recycling_keeps_the_front_buffer(states, surfaces, front);
    }
    front_buffers_are_taken_first(taking, taken);
    assert(final(taking)@.recycled =~= states[0]@.recycled + surfaces);
}

pub(crate) proof fn recycling_keeps_the_front_buffer<H, E>(
    states: Seq<SurfmanProvider<H, E>>,
    surfaces: Seq<Surface<H>>,
    front: Surface<H>,
)
    requires
        states.len() == surfaces.len() + 1,
        states[0]@.pending == Some(front),
        forall|i: int|
            0 <= i < surfaces.len() ==> SurfmanProvider::surface_recycled(
                states[i],
                #[trigger] surfaces[i],
                states[i + 1],
            ),
    ensures
        states.last()@.pending == Some(front),
        states.last()@.recycled == states[0]@.recycled + surfaces,
    decreases surfaces.len(),
{
    if surfaces.len() == 0 {
        assert(states[0]@.recycled =~= states[0]@.recycled + surfaces);
    } else {
        let earlier = surfaces.drop_last();
        assert forall|i: int| 0 <= i < earlier.len() implies SurfmanProvider::surface_recycled(
            states.drop_last()[i],
            #[trigger] earlier[i],
            states.drop_last()[i + 1],
        ) by {
            assert(earlier[i] == surfaces[i]);
        }
        recycling_keeps_the_front_buffer(states.drop_last(), earlier, front);
        let i = surfaces.len() - 1;
        assert(SurfmanProvider::surface_recycled(states[i], surfaces[i], states[i + 1]));
        assert(states.last()@.recycled =~= states[0]@.recycled + surfaces);
    }
}

} // verus!
