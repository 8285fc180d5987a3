//! The registry of admitted clients.
use crate::addr::ClientKey;
use crate::assoc::{
    as_map,
    distinct_keys,
    has_key,
    lemma_domain,
    lemma_lookup,
    lemma_push,
    lemma_remove,
    lemma_update,
};
use vstd::prelude::*;

verus! {

/// What the server remembers of one admitted client.
#[derive(Clone, Copy, Debug, PartialEq, Eq, Structural)]
pub struct ClientEntry {
    /// When the client was admitted or last had a message broadcast.
    pub last_message: u64,
    /// How many strikes the client has collected since it was admitted.
    pub strikes: u32,
}

/// The admitted clients, each under the key of its connection.
pub struct ClientRegistry {
    slots: Vec<(ClientKey, ClientEntry)>,
}

impl View for ClientRegistry {
    type V = Map<ClientKey, ClientEntry>;

    /// The registry as a map from client keys to entries.
    open spec fn view(&self) -> Map<ClientKey, ClientEntry> {
        as_map(self.entries())
    }
}

impl ClientRegistry {
    /// The stored entries, in the order in which their keys were first
    /// registered.
    pub closed spec fn entries(&self) -> Seq<(ClientKey, ClientEntry)> {
        self.slots@
    }

    /// The registry holds at most one entry for each client key.
    pub open spec fn wf(&self) -> bool {
        distinct_keys(self.entries())
    }

    /// A registry without clients.
    pub fn new() -> (registry: ClientRegistry)
        ensures
            registry.wf(),
            registry@ == Map::<ClientKey, ClientEntry>::empty(),
            registry.entries().len() == 0,
    {
        let registry = ClientRegistry { slots: Vec::new() };
        assert(registry@ =~= Map::<ClientKey, ClientEntry>::empty());
        registry
    }

    fn find(&self, key: ClientKey) -> (found: Option<usize>)
        ensures
            match found {
                Some(i) => i < self.entries().len() && self.entries()[i as int].0 == key,
                None => !has_key(self.entries(), key),
            },
    {
        let mut i: usize = 0;
        while i < self.slots.len()
            invariant
                i <= self.slots.len(),
                forall|j: int| 0 <= j < i ==> (#[trigger] self.slots@[j]).0 != key,
            decreases self.slots.len() - i,
        {
            if self.slots[i].0 == key {
                return Some(i);
            }
            i += 1;
        }
        None
    }

    /// The number of admitted clients.
    pub fn len(&self) -> (count: usize)
        requires
            self.wf(),
        ensures
            count == self@.dom().len(),
            count == self.entries().len(),
    {
        proof {
            lemma_domain(self.entries());
        }
        self.slots.len()
    }

    /// The entry of the client `key`, if it is admitted.
    pub fn get(&self, key: ClientKey) -> (entry: Option<ClientEntry>)
        requires
            self.wf(),
        ensures
            entry == self@.get(key),
    {
        match self.find(key) {
            Some(i) => {
                proof {
                    lemma_lookup(self.entries(), i as int);
                }
                Some(self.slots[i].1)
            },
            None => None,
        }
    }

    /// Registers `entry` under `key`, in place of any entry already there.
    pub fn insert(&mut self, key: ClientKey, entry: ClientEntry)
        requires
            old(self).wf(),
        ensures
            final(self).wf(),
            final(self)@ == old(self)@.insert(key, entry),
    {
        match self.find(key) {
            Some(i) => {
                proof {
                    lemma_update(self.entries(), i as int, entry);
                }
                self.slots.set(i, (key, entry));
            },
            None => {
                proof {
                    lemma_push(self.entries(), key, entry);
                }
                self.slots.push((key, entry));
            },
        }
    }

    /// Takes the client `key` out of the registry and returns the entry it
    /// had. Without such a client nothing changes.
    pub fn remove(&mut self, key: ClientKey) -> (entry: Option<ClientEntry>)
        requires
            old(self).wf(),
        ensures
            final(self).wf(),
            final(self)@ == old(self)@.remove(key),
            entry == old(self)@.get(key),
    {
        match self.find(key) {
            Some(i) => {
                proof {
                    lemma_lookup(self.entries(), i as int);
                    lemma_remove(self.entries(), i as int);
                }
                let slot = self.slots.remove(i);
                Some(slot.1)
            },
            None => {
                assert(self@.remove(key) =~= self@);
                None
            },
        }
    }

    /// The keys of all admitted clients but `key`, each once.
    pub fn others(&self, key: ClientKey) -> (keys: Vec<ClientKey>)
        requires
            self.wf(),
        ensures
            keys@.no_duplicates(),
            keys@.to_set() == self@.dom().remove(key),
    {
        let mut keys: Vec<ClientKey> = Vec::new();
        let mut i: usize = 0;
        while i < self.slots.len()
            invariant
                i <= self.slots.len(),
                self.wf(),
                keys@.no_duplicates(),
                forall|k: ClientKey|
                    keys@.contains(k) <==> k != key && exists|j: int|
                        0 <= j < i && (#[trigger] self.slots@[j]).0 == k,
            decreases self.slots.len() - i,
        {
            let other = self.slots[i].0;
            if other != key {
                proof {
                    let before = keys@;
                    let after = keys@.push(other);
                    assert(!before.contains(other));
                    assert forall|k: ClientKey|
                        after.contains(k) <==> k != key && exists|j: int|
                            0 <= j < i + 1 && (#[trigger] self.slots@[j]).0 == k by {
                        if after.contains(k) {
                            let a = choose|a: int| 0 <= a < after.len() && after[a] == k;
                            if a < before.len() {
                                assert(before[a] == k);
                                assert(before.contains(k));
                            } else {
                                assert(self.slots@[i as int].0 == k);
                            }
                        }
                        if k != key && exists|j: int|
                            0 <= j < i + 1 && (#[trigger] self.slots@[j]).0 == k {
                            let j = choose|j: int|
                                0 <= j < i + 1 && (#[trigger] self.slots@[j]).0 == k;
                            if j < i {
                                assert(before.contains(k));
                                let a = choose|a: int| 0 <= a < before.len() && before[a] == k;
                                assert(after[a] == k);
                            } else {
                                assert(after[before.len() as int] == k);
                            }
                        }
                    }
                }
                keys.push(other);
            }
            i += 1;
        }
        assert(keys@.to_set() =~= self@.dom().remove(key));
        keys
    }
}

} // verus!
