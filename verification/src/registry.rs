//! The connection registry: which clients are connected, by identifier.

use crate::client_id::{lemma_probe_injective, lemma_probe_starts_at_id, probe, probe_at};
use std::collections::HashMap;
use vstd::prelude::*;
use vstd::std_specs::hash::spec_keys_iter;
use vstd::std_specs::iter::IteratorSpec;

verus! {

broadcast use vstd::std_specs::hash::group_hash_axioms;

/// The lifecycle marker that the registry keeps for a connection.
#[derive(Clone, Copy, Debug, PartialEq, Eq, Structural)]
pub enum ConnectionStatus {
    /// The connection's session is established.
    Connected,
}

/// Whether `k` tries are what it takes to find a free identifier from
/// `start`: the first `k` that are tried are registered, and the next is not.
pub open spec fn first_vacant(clients: Map<u128, ConnectionStatus>, start: u128, k: u64) -> bool {
    &&& forall|j: u64| j < k ==> clients.contains_key(#[trigger] probe(start, j))
    &&& !clients.contains_key(probe(start, k))
}

/// The identifiers that are tried from `start` are all different, so a
/// registry that holds the first `k` of them holds at least `k`.
proof fn lemma_tries_are_registered(clients: Set<u128>, start: u128, k: nat)
    requires
        clients.finite(),
        k <= u64::MAX + 1,
        forall|j: u64| j < k ==> clients.contains(#[trigger] probe(start, j)),
    ensures
        k <= clients.len(),
{
    let tries = vstd::set_lib::set_int_range(0, k as int);
    vstd::set_lib::lemma_int_range(0, k as int);
    let nth = |j: int| probe(start, j as u64);
    assert(vstd::relations::injective_on(nth, tries)) by {
        assert forall|i: int, j: int|
            tries.contains(i) && tries.contains(j) && #[trigger] nth(i) == #[trigger] nth(
                j,
            ) implies i == j by {
            lemma_probe_injective(start, i as u64, j as u64);
        }
    }
    let tried = tries.map(nth);
    vstd::set_lib::lemma_map_size(tries, tried, nth);
    assert(tried.subset_of(clients)) by {
        assert forall|id: u128| tried.contains(id) implies clients.contains(id) by {
            let j = choose|j: int| tries.contains(j) && id == nth(j);
            assert(clients.contains(probe(start, j as u64)));
        }
    }
    vstd::set_lib::lemma_len_subset(tried, clients);
}

/// A mapping from connection identifier to status. An identifier is in it
/// from the moment its session registers until the session unregisters.
pub struct Registry {
    clients: HashMap<u128, ConnectionStatus>,
}

impl View for Registry {
    type V = Map<u128, ConnectionStatus>;

    closed spec fn view(&self) -> Map<u128, ConnectionStatus> {
        self.clients@
    }
}

impl Registry {
    /// An empty registry.
    pub fn new() -> (registry: Registry)
        ensures
            registry@ == Map::<u128, ConnectionStatus>::empty(),
    {
        Registry { clients: HashMap::new() }
    }

    /// Records `id` as connected.
    pub fn register(&mut self, id: u128)
        ensures
            final(self)@ == old(self)@.insert(id, ConnectionStatus::Connected),
    {
        self.clients.insert(id, ConnectionStatus::Connected);
    }

    /// Removes `id`; a registry that does not hold it stays as it is.
    pub fn unregister(&mut self, id: u128)
        ensures
            final(self)@ == old(self)@.remove(id),
    {
        self.clients.remove(&id);
    }

    /// Whether `id` is registered.
    pub fn contains(&self, id: u128) -> (found: bool)
        ensures
            found == self@.contains_key(id),
    {
        self.clients.contains_key(&id)
    }

    /// A registry holds finitely many connections.
    pub proof fn lemma_finite(&self)
        ensures
            self@.dom().finite(),
    {
    }

    /// An identifier that is not registered: `start` where that is free,
    /// else the first free one among those that are tried in its place.
    pub fn vacant(&self, start: u128) -> (id: u128)
        ensures
            !self@.contains_key(id),
            !self@.contains_key(start) ==> id == start,
            exists|k: u64| first_vacant(self@, start, k) && id == probe(start, k),
    {
        let n = self.clients.len();
        let mut k: usize = 0;
        proof {
            lemma_probe_starts_at_id(start);
        }
        loop
            invariant
                k <= n,
                self@.dom().finite(),
                n == self@.dom().len(),
                probe(start, 0) == start,
                forall|j: u64| j < k ==> self@.contains_key(#[trigger] probe(start, j)),
            decreases n - k,
        {
            let id = probe_at(start, k as u64);
            if !self.clients.contains_key(&id) {
                assert(first_vacant(self@, start, k as u64));
                return id;
            }
            proof {
                lemma_tries_are_registered(self@.dom(), start, (k + 1) as nat);
            }
            k += 1;
        }
    }

    /// The number of registered connections.
    pub fn count(&self) -> (n: usize)
        ensures
            self@.dom().finite(),
            n == self@.dom().len(),
    {
        self.clients.len()
    }

    /// The registered identifiers, each once, in no particular order.
    pub fn ids(&self) -> (ids: Vec<u128>)
        ensures
            ids@.no_duplicates(),
            ids@.to_set() == self@.dom(),
            ids@.len() == self@.dom().len(),
    {
        let mut ids: Vec<u128> = Vec::new();
        let ghost keys = spec_keys_iter(&self.clients).remaining();
        for id in it: self.clients.keys()
            invariant
                it.seq() == keys,
                ids@.len() == it.index(),
                forall|i: int| 0 <= i < ids@.len() ==> ids@[i] == *keys[i],
        {
            ids.push(*id);
        }
        assert(ids@ =~= keys.unref());
        ids
    }
}

} // verus!
