//! A collection of swap chains.
//!
//! The collection holds handles to swap chains. What a handle is, it leaves to its users, who may
//! share a swap chain between threads behind it.

use core::hash::Hash;
use fnv::{FnvHashMap, FnvHashSet};
use vstd::prelude::*;
use vstd::std_specs::hash::obeys_key_model;

use crate::chain::{creation_starts, Creation, SwapChain};
use crate::provider::SurfaceProvider;
use crate::surface::{ContextID, Error, Size2D};
use crate::tables::{
    map_contains_key, map_get, map_insert, map_keys, map_remove, set_drain, set_insert, set_items,
    set_remove,
};

verus! {

/// What the swap chain ids must be like: they hash and compare as a table expects, and a clone of
/// an id is that id.
pub open spec fn is_id_type<SwapChainID: Clone>() -> bool {
    &&& obeys_key_model::<SwapChainID>()
    &&& forall|id: SwapChainID, clone: SwapChainID|
        #[trigger] cloned(id, clone) ==> clone == id
}

/// The ids of a list of swap chains.
pub open spec fn keys<SwapChainID, C>(swap_chains: Seq<(SwapChainID, C)>) -> Seq<SwapChainID> {
    Seq::new(swap_chains.len(), |i: int| swap_chains[i].0)
}

/// A collection of swap chains. `C` is a handle to a swap chain.
#[verifier::reject_recursive_types(SwapChainID)]
#[verifier::reject_recursive_types(C)]
pub struct SwapChains<SwapChainID: Eq + Hash, C> {
    // The swap chain ids, indexed by context id
    ids: FnvHashMap<ContextID, FnvHashSet<SwapChainID>>,
    // The swap chains, indexed by swap chain id
    table: FnvHashMap<SwapChainID, C>,
}

/// What a [`SwapChains`] holds.
#[verifier::ext_equal]
#[verifier::reject_recursive_types(SwapChainID)]
pub ghost struct ChainsState<SwapChainID, C> {
    /// The ids under which each producer context created its swap chains.
    pub ids: Map<ContextID, Set<SwapChainID>>,
    /// The swap chains.
    pub table: Map<SwapChainID, C>,
}

impl<SwapChainID, C> ChainsState<SwapChainID, C> {
    /// The ids that are listed for a producer context.
    pub open spec fn listed(self, context_id: ContextID) -> Set<SwapChainID> {
        if self.ids.contains_key(context_id) {
            self.ids[context_id]
        } else {
            Set::empty()
        }
    }

    /// The collection with a new swap chain of the producer context `context_id`.
    pub open spec fn with_chain(self, id: SwapChainID, context_id: ContextID, chain: C) -> Self {
        ChainsState {
            ids: self.ids.insert(context_id, self.listed(context_id).insert(id)),
            table: self.table.insert(id, chain),
        }
    }

    /// The collection with `id` off the list of the producer context `context_id`.
    pub open spec fn unlisted(self, id: SwapChainID, context_id: ContextID) -> Self {
        if self.ids.contains_key(context_id) {
            ChainsState {
                ids: self.ids.insert(context_id, self.ids[context_id].remove(id)),
                ..self
            }
        } else {
            self
        }
    }

    /// The collection with `id` off all lists.
    pub open spec fn unlisted_everywhere(self, id: SwapChainID) -> Self {
        ChainsState { ids: self.ids.map_values(|ids: Set<SwapChainID>| ids.remove(id)), ..self }
    }

    /// The collection with no swap chain for `id`.
    pub open spec fn without(self, id: SwapChainID) -> Self {
        ChainsState { table: self.table.remove(id), ..self }
    }

    /// The collection with no list for the producer context `context_id`.
    pub open spec fn with_no_list(self, context_id: ContextID) -> Self {
        ChainsState { ids: self.ids.remove(context_id), ..self }
    }

    /// Whether `found` is what has a swap chain at the end of `doomed`: that of the last id that
    /// has one. It leaves the table; its id and all that come after it leave the queue.
    pub open spec fn dooms(
        self,
        doomed: Seq<SwapChainID>,
        found: Option<C>,
        after: Self,
        doomed_after: Seq<SwapChainID>,
    ) -> bool {
        let left = doomed_after.len() as int;
        match found {
            Some(chain) => {
                &&& left < doomed.len()
                &&& doomed_after == doomed.take(left)
                &&& forall|i: int|
                    left < i < doomed.len() ==> !self.table.contains_key(#[trigger] doomed[i])
                &&& self.chain(doomed[left]) == Some(chain)
                &&& after == self.without(doomed[left])
            },
            None => {
                &&& left == 0
                &&& forall|i: int|
                    0 <= i < doomed.len() ==> !self.table.contains_key(#[trigger] doomed[i])
                &&& after == self
            },
        }
    }

    /// Whether `next` is what comes after a destruction that ended with `destroyed`: its error, if
    /// it failed, and nothing is doomed any more; else what [`ChainsState::dooms`] says.
    pub open spec fn dooms_after<E>(
        self,
        doomed: Seq<SwapChainID>,
        destroyed: Result<(), Error<E>>,
        next: Result<Option<C>, Error<E>>,
        after: Self,
        doomed_after: Seq<SwapChainID>,
    ) -> bool {
        match destroyed {
            Ok(_) => {
                &&& next is Ok
                &&& self.dooms(doomed, next->Ok_0, after, doomed_after)
            },
            Err(error) => {
                &&& next == Err::<Option<C>, Error<E>>(error)
                &&& after == self
                &&& doomed_after.len() == 0
            },
        }
    }

    /// The swap chain of an id.
    pub open spec fn chain(self, id: SwapChainID) -> Option<C> {
        if self.table.contains_key(id) {
            Some(self.table[id])
        } else {
            None
        }
    }
}

impl<SwapChainID: Eq + Hash, C> View for SwapChains<SwapChainID, C> {
    type V = ChainsState<SwapChainID, C>;

    closed spec fn view(&self) -> ChainsState<SwapChainID, C> {
        ChainsState {
            ids: self.ids@.map_values(|ids: FnvHashSet<SwapChainID>| ids@),
            table: self.table@,
        }
    }
}

impl<SwapChainID: Clone + Eq + Hash, C> Default for SwapChains<SwapChainID, C> {
    /// Create a new collection.
    fn default() -> (chains: SwapChains<SwapChainID, C>)
        ensures
            chains@ == (ChainsState {
                ids: Map::<ContextID, Set<SwapChainID>>::empty(),
                table: Map::<SwapChainID, C>::empty(),
            }),
    {
        SwapChains::new()
    }
}

impl<SwapChainID: Clone + Eq + Hash, C> SwapChains<SwapChainID, C> {
    /// Create a new collection.
    pub fn new() -> (chains: SwapChains<SwapChainID, C>)
        ensures
            chains@ == (ChainsState {
                ids: Map::<ContextID, Set<SwapChainID>>::empty(),
                table: Map::<SwapChainID, C>::empty(),
            }),
    {
        let chains = SwapChains { ids: FnvHashMap::default(), table: FnvHashMap::default() };
        assert(chains@.ids =~= Map::<ContextID, Set<SwapChainID>>::empty());
        chains
    }

    /// Puts `id` on the list of the producer context `context_id`.
    fn list(&mut self, id: SwapChainID, context_id: ContextID)
        requires
            obeys_key_model::<SwapChainID>(),
        ensures
            final(self)@ == (ChainsState {
                ids: old(self)@.ids.insert(
                    context_id,
                    old(self)@.listed(context_id).insert(id),
                ),
                ..old(self)@
            }),
    {
        let mut ids = match map_remove(&mut self.ids, &context_id) {
            Some(ids) => ids,
            None => FnvHashSet::default(),
        };
        set_insert(&mut ids, id);
        map_insert(&mut self.ids, context_id, ids);
        assert(self@.ids =~= old(self)@.ids.insert(
            context_id,
            old(self)@.listed(context_id).insert(id),
        ));
    }

    /// Returns an error if the `id` is already in the table.
    pub fn check_vacant<E>(&self, id: &SwapChainID) -> (result: Result<(), Error<E>>)
        requires
            obeys_key_model::<SwapChainID>(),
        ensures
            result == (if self@.table.contains_key(*id) {
                Err::<(), Error<E>>(Error::Failed)
            } else {
                Ok::<(), Error<E>>(())
            }),
    {
        if map_contains_key(&self.table, id) {
            Err(Error::Failed)
        } else {
            Ok(())
        }
    }

    /// Insert a new attached swap chain of the producer context `context_id` in the table.
    /// Where [`SwapChains::check_vacant`] finds the `id` taken, there is no need to create one.
    /// Returns an error if the `id` is already in the table.
    pub fn create_attached_swap_chain<E>(
        &mut self,
        id: SwapChainID,
        context_id: ContextID,
        swap_chain: C,
    ) -> (result: Result<(), Error<E>>)
        requires
            is_id_type::<SwapChainID>(),
        ensures
            if old(self)@.table.contains_key(id) {
                &&& result == Err::<(), Error<E>>(Error::Failed)
                &&& final(self)@ == old(self)@
            } else {
                &&& result == Ok::<(), Error<E>>(())
                &&& final(self)@ == old(self)@.with_chain(id, context_id, swap_chain)
            },
    {
        self.create_detached_swap_chain(id, context_id, Ok(swap_chain))
    }

    /// Starts the creation of a new detached swap chain of the producer context `context_id`, with
    /// a back buffer of size `size` from its backend. What becomes of it goes to
    /// [`SwapChains::create_detached_swap_chain`].
    /// Returns an error if the `id` is already in the table; the backend is not asked then.
    pub fn start_detached<H, P: SurfaceProvider<H>>(
        &self,
        id: &SwapChainID,
        context_id: ContextID,
        surface_provider: P,
        size: Size2D,
    ) -> (started: Result<Creation<H, P>, Error<P::Error>>)
        requires
            obeys_key_model::<SwapChainID>(),
        ensures
            if self@.table.contains_key(*id) {
                started == Err::<Creation<H, P>, Error<P::Error>>(Error::Failed)
            } else {
                creation_starts(context_id, surface_provider, size, started)
            },
    {
        match self.check_vacant(id) {
            Ok(_) => SwapChain::create_detached(context_id, surface_provider, size),
            Err(error) => Err(error),
        }
    }

    /// Insert a new detached swap chain of the producer context `context_id` in the table.
    /// `created` is what became of its creation, which [`SwapChains::start_detached`] started.
    /// Returns an error if the `id` is already in the table, or else the error of the creation.
    pub fn create_detached_swap_chain<E>(
        &mut self,
        id: SwapChainID,
        context_id: ContextID,
        created: Result<C, Error<E>>,
    ) -> (result: Result<(), Error<E>>)
        requires
            is_id_type::<SwapChainID>(),
        ensures
            if old(self)@.table.contains_key(id) {
                &&& result == Err::<(), Error<E>>(Error::Failed)
                &&& final(self)@ == old(self)@
            } else {
                match created {
                    Ok(swap_chain) => {
                        &&& result == Ok::<(), Error<E>>(())
                        &&& final(self)@ == old(self)@.with_chain(id, context_id, swap_chain)
                    },
                    Err(error) => {
                        &&& result == Err::<(), Error<E>>(error)
                        &&& final(self)@ == old(self)@
                    },
                }
            },
    {
        if map_contains_key(&self.table, &id) {
            return Err(Error::Failed);
        }
        match created {
            Ok(swap_chain) => {
                let clone = id.clone();
                assert(cloned(id, clone));
                map_insert(&mut self.table, clone, swap_chain);
                self.list(id, context_id);
                Ok(())
            },
            Err(error) => Err(error),
        }
    }

    /// Destroy a swap chain.
    /// Called by the producer.
    /// Takes the swap chain out of the table. Its user is to have it destroyed, and to hand what
    /// became of that to [`SwapChains::finish_destroy`].
    pub fn destroy(&mut self, id: &SwapChainID) -> (swap_chain: Option<C>)
        requires
            obeys_key_model::<SwapChainID>(),
        ensures
            swap_chain == old(self)@.chain(*id),
            final(self)@ == old(self)@.without(*id),
    {
        map_remove(&mut self.table, id)
    }

    /// Takes `id` off the list of the producer context `context_id`.
    fn unlist(&mut self, id: &SwapChainID, context_id: ContextID)
        requires
            obeys_key_model::<SwapChainID>(),
        ensures
            final(self)@ == old(self)@.unlisted(*id, context_id),
    {
        if let Some(ids) = map_remove(&mut self.ids, &context_id) {
            let mut ids = ids;
            set_remove(&mut ids, id);
            map_insert(&mut self.ids, context_id, ids);
        }
        assert(self@.ids =~= old(self)@.unlisted(*id, context_id).ids);
    }

    /// Takes `id` off all lists.
    fn unlist_everywhere(&mut self, id: &SwapChainID)
        requires
            obeys_key_model::<SwapChainID>(),
        ensures
            final(self)@ == old(self)@.unlisted_everywhere(*id),
    {
        let contexts = map_keys(&self.ids);
        let ghost before = self@;
        assert(contexts@.to_set() == before.ids.dom());
        let mut index: usize = 0;
        while index < contexts.len()
            invariant
                obeys_key_model::<SwapChainID>(),
                index <= contexts@.len(),
                contexts@.no_duplicates(),
                contexts@.to_set() == before.ids.dom(),
                self@.ids.dom() == before.ids.dom(),
                self@.table == before.table,
                forall|i: int|
                    0 <= i < index ==> self@.ids[#[trigger] contexts@[i]]
                        == before.ids[contexts@[i]].remove(*id),
                forall|i: int|
                    index <= i < contexts@.len() ==> self@.ids[#[trigger] contexts@[i]]
                        == before.ids[contexts@[i]],
            decreases contexts@.len() - index,
        {
            assert(contexts@.to_set().contains(contexts@[index as int]));
            self.unlist(id, contexts[index]);
            assert(self@.ids.dom() =~= before.ids.dom());
            index += 1;
        }
        assert forall|context_id: ContextID| before.ids.contains_key(
            context_id,
        ) implies self@.ids[context_id] == before.ids[context_id].remove(*id) by {
            assert(contexts@.to_set().contains(context_id));
            let i = contexts@.index_of(context_id);
            assert(contexts@[i] == context_id);
        }
        assert(self@.ids =~= before.unlisted_everywhere(*id).ids);
    }

    /// Finishes [`SwapChains::destroy`] for the producer context `context_id`. `destroyed` is
    /// what became of the destruction of the swap chain, or `None` if there was no such swap
    /// chain. Returns the error of the destruction. The swap chain is out of the table then too,
    /// and its id is off the list of its producer context, whichever that is.
    pub fn finish_destroy<E>(
        &mut self,
        id: &SwapChainID,
        context_id: ContextID,
        destroyed: Option<Result<(), Error<E>>>,
    ) -> (result: Result<(), Error<E>>)
        requires
            obeys_key_model::<SwapChainID>(),
        ensures
            match destroyed {
                Some(Err(error)) => {
                    &&& result == Err::<(), Error<E>>(error)
                    &&& final(self)@ == old(self)@.unlisted_everywhere(*id)
                },
                _ => {
                    &&& result == Ok::<(), Error<E>>(())
                    &&& final(self)@ == old(self)@.unlisted(*id, context_id)
                },
            },
    {
        if let Some(Err(error)) = destroyed {
            self.unlist_everywhere(id);
            return Err(error);
        }
        self.unlist(id, context_id);
        Ok(())
    }

    /// Destroy all the swap chains for a particular producer context.
    /// Called by the producer.
    /// Takes the list of the producer context away, and hands it out. Its user is to destroy the
    /// swap chains that [`SwapChains::next_doomed_after`] finds on it, one by one.
    pub fn destroy_all(&mut self, context_id: ContextID) -> (doomed: Vec<SwapChainID>)
        requires
            obeys_key_model::<SwapChainID>(),
        ensures
            doomed@.no_duplicates(),
            doomed@.to_set() == old(self)@.listed(context_id),
            final(self)@ == old(self)@.with_no_list(context_id),
    {
        let removed = map_remove(&mut self.ids, &context_id);
        assert(self@.ids =~= old(self)@.ids.remove(context_id));
        match removed {
            Some(mut ids) => set_drain(&mut ids),
            None => {
                let doomed = Vec::new();
                assert(doomed@.to_set() =~= Set::<SwapChainID>::empty());
                doomed
            },
        }
    }

    /// Takes the last id off `doomed` that has a swap chain, and all that come after it; takes
    /// the swap chain out of the table, and hands it out.
    pub fn next_doomed(&mut self, doomed: &mut Vec<SwapChainID>) -> (swap_chain: Option<C>)
        requires
            obeys_key_model::<SwapChainID>(),
        ensures
            old(self)@.dooms(old(doomed)@, swap_chain, final(self)@, final(doomed)@),
    {
        let ghost queue = doomed@;
        loop
            invariant
                obeys_key_model::<SwapChainID>(),
                queue == old(doomed)@,
                self@ == old(self)@,
                doomed@.len() <= queue.len(),
                doomed@ == queue.take(doomed@.len() as int),
                forall|i: int|
                    doomed@.len() <= i < queue.len() ==> !self@.table.contains_key(
                        #[trigger] queue[i],
                    ),
            decreases doomed@.len(),
        {
            let ghost before = doomed@;
            match doomed.pop() {
                Some(id) => {
                    assert(id == queue[before.len() - 1]);
                    assert(doomed@ == queue.take(doomed@.len() as int));
                    if let Some(swap_chain) = map_remove(&mut self.table, &id) {
                        return Some(swap_chain);
                    }
                    assert(self@.table =~= old(self)@.table);
                },
                None => {
                    return None;
                },
            }
        }
    }

    /// Goes on with [`SwapChains::destroy_all`]. `destroyed` is what became of the destruction of
    /// the last swap chain that was handed out, and `Ok` at first. Hands the next swap chain out,
    /// which is to be destroyed; `None` if there is none, and all is done. The first destruction
    /// that fails ends the work, and its error is the result.
    pub fn next_doomed_after<E>(
        &mut self,
        doomed: &mut Vec<SwapChainID>,
        destroyed: Result<(), Error<E>>,
    ) -> (next: Result<Option<C>, Error<E>>)
        requires
            obeys_key_model::<SwapChainID>(),
        ensures
            old(self)@.dooms_after(old(doomed)@, destroyed, next, final(self)@, final(doomed)@),
    {
        match destroyed {
            Ok(_) => Ok(self.next_doomed(doomed)),
            Err(error) => {
                doomed.clear();
                Err(error)
            },
        }
    }
}

impl<SwapChainID: Clone + Eq + Hash, C: Clone> SwapChains<SwapChainID, C> {
    /// Get a swap chain
    pub fn get(&self, id: &SwapChainID) -> (swap_chain: Option<C>)
        requires
            obeys_key_model::<SwapChainID>(),
        ensures
            match swap_chain {
                Some(swap_chain) => {
                    &&& self@.table.contains_key(*id)
                    &&& cloned(self@.table[*id], swap_chain)
                },
                None => !self@.table.contains_key(*id),
            },
    {
        match map_get(&self.table, id) {
            Some(swap_chain) => Some(swap_chain.clone()),
            None => None,
        }
    }

    /// Iterate over all the swap chains for a particular producer context.
    /// Called by the producer.
    /// The swap chains come in no particular order, each with its id.
    pub fn iter(&self, context_id: ContextID) -> (swap_chains: Vec<(SwapChainID, C)>)
        requires
            is_id_type::<SwapChainID>(),
        ensures
            keys(swap_chains@).no_duplicates(),
            keys(swap_chains@).to_set() == self@.listed(context_id).intersect(self@.table.dom()),
            forall|i: int|
                0 <= i < swap_chains@.len() ==> cloned(
                    self@.table[(#[trigger] swap_chains@[i]).0],
                    swap_chains@[i].1,
                ),
    {
        let mut swap_chains: Vec<(SwapChainID, C)> = Vec::new();
        if let Some(set) = map_get(&self.ids, &context_id) {
            let ids = set_items(set);
            let mut index: usize = 0;
            while index < ids.len()
                invariant
                    is_id_type::<SwapChainID>(),
                    index <= ids@.len(),
                    ids@.no_duplicates(),
                    forall|i: int|
                        0 <= i < swap_chains@.len() ==> {
                            &&& self@.table.contains_key((#[trigger] swap_chains@[i]).0)
                            &&& cloned(self@.table[swap_chains@[i].0], swap_chains@[i].1)
                            &&& ids@.unref().take(index as int).contains(swap_chains@[i].0)
                        },
                    forall|i: int|
                        0 <= i < index && self@.table.contains_key(*#[trigger] ids@[i])
                            ==> keys(swap_chains@).contains(*ids@[i]),
                    keys(swap_chains@).no_duplicates(),
                decreases ids@.len() - index,
            {
                let id = ids[index];
                let ghost before = swap_chains@;
                let ghost seen = ids@.unref().take(index as int);
                if let Some(swap_chain) = map_get(&self.table, id) {
                    let clone = id.clone();
                    assert(cloned(*id, clone));
                    swap_chains.push((clone, swap_chain.clone()));
                    assert(keys(swap_chains@) =~= keys(before).push(*id));
                    assert(!keys(before).contains(*id)) by {
                        if keys(before).contains(*id) {
                            let i = keys(before).index_of(*id);
                            assert(seen.contains(before[i].0));
                            let j = seen.index_of(*id);
                            assert(ids@[j] == ids@[index as int]);
                        }
                    }
                }
                index += 1;
                proof {
                    broadcast use vstd::seq_lib::group_seq_properties;

                    assert(ids@.unref().take(index as int) =~= seen.push(*id));
                }
            }
        }
        swap_chains
    }
}

} // verus!
