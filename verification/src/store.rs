//! The store of searches in flight, and the ids it hands out.

use crate::scan::{ComputeState, Scan};
use std::collections::HashMap;
use vstd::prelude::*;
use vstd::set_lib::lemma_map_size;
use vstd::std_specs::hash::*;

verus! {

broadcast use group_hash_axioms;

/// The mathematical state of the store: the last id handed out and the
/// searches in flight, by id.
pub struct Store {
    pub last_id: nat,
    pub live: Map<nat, Scan>,
}

impl Store {
    /// The store of a server that has heard no request.
    pub open spec fn empty() -> Store {
        Store { last_id: 0, live: Map::empty() }
    }

    /// Every search in flight runs under an id that was handed out, and is
    /// due another comparison.
    pub open spec fn wf(self) -> bool {
        forall|id: nat| #[trigger]
            self.live.contains_key(id) ==> 1 <= id <= self.last_id && self.live[id].scanning()
    }

    /// The search running under `id`, if there is one.
    pub open spec fn probe(self, id: nat) -> Option<Scan> {
        if self.live.contains_key(id) {
            Some(self.live[id])
        } else {
            None
        }
    }
}

/// A map that stores the `ComputeState` of each search in flight, and the
/// counter from which their ids are drawn.
pub struct ComputeMap {
    /// A monotonically-increasing counter for assigning new request IDs.
    uid: u32,
    /// HashMap mapping request IDs to `ComputeState` instances.
    mapping: HashMap<u32, ComputeState>,
}

impl View for ComputeMap {
    type V = Store;

    closed spec fn view(&self) -> Store {
        Store {
            last_id: self.uid as nat,
            live: Map::new(
                |id: nat| id <= u32::MAX && self.mapping@.contains_key(id as u32),
                |id: nat| self.mapping@[id as u32]@,
            ),
        }
    }
}

impl ComputeMap {
    /// An empty store that has handed out no id.
    pub fn new() -> (r: ComputeMap)
        ensures
            r@ == Store::empty(),
            r@.wf(),
    {
        let r = ComputeMap { uid: 0, mapping: HashMap::new() };
        assert(r@.live =~= Map::empty());
        r
    }

    /// The last id handed out; zero if none was.
    pub fn last_id(&self) -> (r: u32)
        ensures
            r == self@.last_id,
    {
        self.uid
    }

    /// The number of searches in flight.
    pub fn len(&self) -> (r: usize)
        ensures
            self@.live.dom().finite(),
            r == self@.live.len(),
    {
        proof {
            let widen = |id: u32| id as nat;
            let keys = self.mapping@.dom();
            assert(keys.map(widen) =~= self@.live.dom()) by {
                assert forall|id: nat| self@.live.dom().contains(id) implies keys.map(
                    widen,
                ).contains(id) by {
                    assert(keys.contains(id as u32) && widen(id as u32) == id);
                }
            }
            lemma_map_size(keys, self@.live.dom(), widen);
        }
        self.mapping.len()
    }

    /// The state of the search running under `id`, if there is one.
    pub fn get(&self, id: u32) -> (r: Option<ComputeState>)
        ensures
            match r {
                Some(state) => self@.probe(id as nat) == Some(state@),
                None => self@.probe(id as nat) is None,
            },
    {
        match self.mapping.get(&id) {
            Some(state) => Some(*state),
            None => None,
        }
    }

    /// Hands out a fresh id: one more than the last, so greater than every
    /// id handed out before. Returns `None`, and changes nothing, once the
    /// ids are used up.
    pub(crate) fn allocate_id(&mut self) -> (r: Option<u32>)
        ensures
            old(self)@.last_id < u32::MAX ==> r == Some((old(self)@.last_id + 1) as u32)
                && final(self)@ == (Store { last_id: old(self)@.last_id + 1, ..old(self)@ }),
            old(self)@.last_id >= u32::MAX ==> r is None && final(self)@ == old(self)@,
    {
        if self.uid == u32::MAX {
            return None;
        }
        self.uid = self.uid + 1;
        Some(self.uid)
    }

    /// Stores a new search under the id that was just handed out. In a
    /// well-formed store no search runs under that id yet.
    pub(crate) fn insert(&mut self, id: u32, state: ComputeState)
        requires
            id == old(self)@.last_id,
        ensures
            final(self)@ == (Store {
                live: old(self)@.live.insert(id as nat, state@),
                ..old(self)@
            }),
    {
        self.mapping.insert(id, state);
        assert(self@.live =~= old(self)@.live.insert(id as nat, state@));
    }

    /// Writes the new state of a search in flight back to the store.
    pub(crate) fn update(&mut self, id: u32, state: ComputeState)
        requires
            old(self)@.live.contains_key(id as nat),
        ensures
            final(self)@ == (Store {
                live: old(self)@.live.insert(id as nat, state@),
                ..old(self)@
            }),
    {
        self.mapping.insert(id, state);
        assert(self@.live =~= old(self)@.live.insert(id as nat, state@));
    }

    /// Takes a search out of the store: it has delivered its result.
    pub(crate) fn remove(&mut self, id: u32)
        ensures
            final(self)@ == (Store { live: old(self)@.live.remove(id as nat), ..old(self)@ }),
    {
        self.mapping.remove(&id);
        assert(self@.live =~= old(self)@.live.remove(id as nat));
    }
}

} // verus!
