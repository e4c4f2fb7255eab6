//! Bidirectional mapping between local entity handles and network-wide ids.
use std::collections::HashMap;
use vstd::prelude::*;

verus! {

broadcast use vstd::std_specs::hash::group_hash_axioms;

/// A handle of an entity in the local simulation; it never crosses the wire.
#[derive(Clone, Copy, Debug, PartialEq, Eq, Structural)]
pub struct Entity(pub u64);

/// A wire-stable identifier of an entity, shared by all peers.
#[derive(Clone, Copy, Debug, PartialEq, Eq, Structural)]
pub struct NetId(pub u64);

/// No two handles of the mapping share a network id.
pub open spec fn injective(m: Map<u64, u64>) -> bool {
    forall|a: u64, b: u64|
        #![trigger m[a], m[b]]
        m.contains_key(a) && m.contains_key(b) && m[a] == m[b] ==> a == b
}

/// Whether some handle is mapped to network id `n`.
pub open spec fn has_net_id(m: Map<u64, u64>, n: u64) -> bool {
    exists|h: u64| m.contains_key(h) && m[h] == n
}

/// The handle mapped to network id `n`, if any.
pub open spec fn entity_for(m: Map<u64, u64>, n: u64) -> Option<u64> {
    if has_net_id(m, n) {
        Some(choose|h: u64| m.contains_key(h) && m[h] == n)
    } else {
        None
    }
}

/// The network id of handle `h`, if any.
pub open spec fn net_id_for(m: Map<u64, u64>, h: u64) -> Option<u64> {
    if m.contains_key(h) {
        Some(m[h])
    } else {
        None
    }
}

/// Whether `insert(h, n)` registers the pair: neither side is mapped yet.
pub open spec fn can_insert(m: Map<u64, u64>, h: u64, n: u64) -> bool {
    !m.contains_key(h) && !has_net_id(m, n)
}

/// The mapping after `insert(h, n)`.
pub open spec fn after_insert(m: Map<u64, u64>, h: u64, n: u64) -> Map<u64, u64> {
    if can_insert(m, h, n) {
        m.insert(h, n)
    } else {
        m
    }
}

/// Lifts a looked-up raw handle to an `Entity`.
pub open spec fn as_entity(h: Option<u64>) -> Option<Entity> {
    match h {
        Some(v) => Some(Entity(v)),
        None => None,
    }
}

/// Lifts a looked-up raw id to a `NetId`.
pub open spec fn as_net_id(n: Option<u64>) -> Option<NetId> {
    match n {
        Some(v) => Some(NetId(v)),
        None => None,
    }
}

/// Local handle <-> network id, both directions with hashed lookup.
///
/// Its view maps each registered handle to its network id.
pub struct NetIdMap {
    to_net: HashMap<u64, u64>,
    to_entity: HashMap<u64, u64>,
}

impl View for NetIdMap {
    type V = Map<u64, u64>;

    closed spec fn view(&self) -> Map<u64, u64> {
        self.to_net@
    }
}

impl NetIdMap {
    /// The two directions are inverse to each other.
    pub closed spec fn wf(&self) -> bool {
        &&& forall|h: u64|
            #![trigger self.to_net@[h]]
            self.to_net@.contains_key(h) ==> self.to_entity@.contains_key(self.to_net@[h])
                && self.to_entity@[self.to_net@[h]] == h
        &&& forall|n: u64|
            #![trigger self.to_entity@[n]]
            self.to_entity@.contains_key(n) ==> self.to_net@.contains_key(self.to_entity@[n])
                && self.to_net@[self.to_entity@[n]] == n
    }

    proof fn lemma_reverse(&self, n: u64)
        requires
            self.wf(),
        ensures
            injective(self@),
            self.to_entity@.contains_key(n) == has_net_id(self@, n),
            self.to_entity@.contains_key(n) ==> entity_for(self@, n) == Some(self.to_entity@[n]),
    {
        if has_net_id(self@, n) {
            let h = choose|h: u64| self@.contains_key(h) && self@[h] == n;
            assert(self.to_net@[h] == n);
        }
        if self.to_entity@.contains_key(n) {
            let h = self.to_entity@[n];
            assert(self.to_net@.contains_key(h) && self.to_net@[h] == n);
            let c = choose|c: u64| self@.contains_key(c) && self@[c] == n;
            assert(self.to_net@[c] == n);
        }
    }

    /// An empty mapping.
    pub fn new() -> (r: NetIdMap)
        ensures
            r.wf(),
            r@ == Map::<u64, u64>::empty(),
            injective(r@),
    {
        NetIdMap { to_net: HashMap::new(), to_entity: HashMap::new() }
    }

    /// Registers `h <-> n` and returns true, unless `h` or `n` is already
    /// mapped: then it returns false and changes nothing.
    pub fn insert(&mut self, h: Entity, n: NetId) -> (r: bool)
        requires
            old(self).wf(),
        ensures
            final(self).wf(),
            r == can_insert(old(self)@, h.0, n.0),
            final(self)@ == after_insert(old(self)@, h.0, n.0),
            injective(final(self)@),
    {
        proof {
            self.lemma_reverse(n.0);
        }
        if self.to_net.contains_key(&h.0) || self.to_entity.contains_key(&n.0) {
            return false;
        }
        self.to_net.insert(h.0, n.0);
        self.to_entity.insert(n.0, h.0);
        true
    }

    /// The network id of `h`, if it is mapped.
    pub fn get_net_id(&self, h: Entity) -> (r: Option<NetId>)
        requires
            self.wf(),
        ensures
            r == as_net_id(net_id_for(self@, h.0)),
            injective(self@),
    {
        proof {
            self.lemma_reverse(0);
        }
        match self.to_net.get(&h.0) {
            Some(n) => Some(NetId(*n)),
            None => None,
        }
    }

    /// The handle mapped to `n`, if any.
    pub fn get_entity(&self, n: NetId) -> (r: Option<Entity>)
        requires
            self.wf(),
        ensures
            r == as_entity(entity_for(self@, n.0)),
            r is None <==> !has_net_id(self@, n.0),
            r matches Some(h) ==> self@.contains_key(h.0) && self@[h.0] == n.0,
            injective(self@),
    {
        proof {
            self.lemma_reverse(n.0);
        }
        match self.to_entity.get(&n.0) {
            Some(h) => Some(Entity(*h)),
            None => None,
        }
    }

    /// Drops the mapping of `h`, both directions; returns the network id it
    /// had, if any.
    pub fn remove(&mut self, h: Entity) -> (r: Option<NetId>)
        requires
            old(self).wf(),
        ensures
            final(self).wf(),
            r == as_net_id(net_id_for(old(self)@, h.0)),
            final(self)@ == old(self)@.remove(h.0),
            injective(final(self)@),
    {
        proof {
            self.lemma_reverse(0);
        }
        match self.to_net.remove(&h.0) {
            Some(n) => {
                self.to_entity.remove(&n);
                Some(NetId(n))
            },
            None => None,
        }
    }
}

/// After a successful `insert(h, n)` both lookups find the pair; after a
/// later `remove(h)` neither does.
pub proof fn lemma_insert_lookup_remove(m: Map<u64, u64>, h: u64, n: u64)
    requires
        injective(m),
        can_insert(m, h, n),
    ensures
        net_id_for(after_insert(m, h, n), h) == Some(n),
        entity_for(after_insert(m, h, n), n) == Some(h),
        net_id_for(after_insert(m, h, n).remove(h), h) == None::<u64>,
        entity_for(after_insert(m, h, n).remove(h), n) == None::<u64>,
{
    let m1 = after_insert(m, h, n);
    assert(m1.contains_key(h) && m1[h] == n);
    let c = choose|c: u64| m1.contains_key(c) && m1[c] == n;
    if c != h {
        assert(m.contains_key(c) && m[c] == n);
    }
    let m2 = m1.remove(h);
    if has_net_id(m2, n) {
        let d = choose|d: u64| m2.contains_key(d) && m2[d] == n;
        assert(m.contains_key(d) && m[d] == n);
    }
}

} // verus!
