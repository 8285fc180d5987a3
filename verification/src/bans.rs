//! The ban list.
use crate::addr::Origin;
use crate::assoc::{
    as_map,
    distinct_keys,
    has_key,
    lemma_domain,
    lemma_lookup,
    lemma_push,
    lemma_remove,
    lemma_update,
};
use crate::config::{elapsed, elapsed_since};
use vstd::prelude::*;

verus! {

/// What is left at `now` of a ban of length `limit` that began at
/// `banned_at`: `None` once the ban has run out.
pub open spec fn remaining(limit: u64, banned_at: u64, now: u64) -> Option<u64> {
    if elapsed(now, banned_at) < limit {
        Some((limit - elapsed(now, banned_at)) as u64)
    } else {
        None
    }
}

/// What is left at `now` of the ban that `bans` records for `origin`:
/// `None` where it records none, or one that has run out.
pub open spec fn active_ban(bans: Map<Origin, u64>, limit: u64, origin: Origin, now: u64) -> Option<
    u64,
> {
    if bans.contains_key(origin) {
        remaining(limit, bans[origin], now)
    } else {
        None
    }
}

/// The banned origins, each with the time at which its ban began.
///
/// A record is not dropped when its ban runs out, but by the first lookup
/// of its origin after that.
pub struct BanRegistry {
    limit: u64,
    records: Vec<(Origin, u64)>,
}

impl View for BanRegistry {
    type V = Map<Origin, u64>;

    /// The registry as a map from origins to the times their bans began.
    open spec fn view(&self) -> Map<Origin, u64> {
        as_map(self.records())
    }
}

impl BanRegistry {
    /// The stored records, in the order in which their origins were first
    /// recorded.
    pub closed spec fn records(&self) -> Seq<(Origin, u64)> {
        self.records@
    }

    /// How long a ban lasts.
    pub closed spec fn limit(&self) -> u64 {
        self.limit
    }

    /// The registry holds at most one record for each origin.
    pub open spec fn wf(&self) -> bool {
        distinct_keys(self.records())
    }

    /// A registry without records, whose bans last `limit`.
    pub fn new(limit: u64) -> (registry: BanRegistry)
        ensures
            registry.wf(),
            registry.limit() == limit,
            registry@ == Map::<Origin, u64>::empty(),
    {
        let registry = BanRegistry { limit, records: Vec::new() };
        assert(registry@ =~= Map::<Origin, u64>::empty());
        registry
    }

    fn find(&self, origin: Origin) -> (found: Option<usize>)
        ensures
            match found {
                Some(i) => i < self.records().len() && self.records()[i as int].0 == origin,
                None => !has_key(self.records(), origin),
            },
    {
        let mut i: usize = 0;
        while i < self.records.len()
            invariant
                i <= self.records.len(),
                forall|j: int| 0 <= j < i ==> (#[trigger] self.records@[j]).0 != origin,
            decreases self.records.len() - i,
        {
            if self.records[i].0 == origin {
                return Some(i);
            }
            i += 1;
        }
        None
    }

    /// The number of records, run out or not.
    pub fn len(&self) -> (count: usize)
        requires
            self.wf(),
        ensures
            count == self@.dom().len(),
    {
        proof {
            lemma_domain(self.records());
        }
        self.records.len()
    }

    /// When the recorded ban of `origin` began, if one is recorded.
    pub fn banned_at(&self, origin: Origin) -> (at: Option<u64>)
        requires
            self.wf(),
        ensures
            at == self@.get(origin),
    {
        match self.find(origin) {
            Some(i) => {
                proof {
                    lemma_lookup(self.records(), i as int);
                }
                Some(self.records[i].1)
            },
            None => None,
        }
    }

    /// Records that `origin` is banned from `now` on, in place of any
    /// earlier record for it.
    pub fn ban(&mut self, origin: Origin, now: u64)
        requires
            old(self).wf(),
        ensures
            final(self).wf(),
            final(self).limit() == old(self).limit(),
            final(self)@ == old(self)@.insert(origin, now),
    {
        match self.find(origin) {
            Some(i) => {
                proof {
                    lemma_update(self.records(), i as int, now);
                }
                self.records.set(i, (origin, now));
            },
            None => {
                proof {
                    lemma_push(self.records(), origin, now);
                }
                self.records.push((origin, now));
            },
        }
    }

    /// Says whether `origin` is banned at `now`, and for how much longer.
    ///
    /// A record whose ban has run out is dropped by this lookup; nothing else
    /// changes.
    pub fn is_banned(&mut self, origin: Origin, now: u64) -> (left: Option<u64>)
        requires
            old(self).wf(),
        ensures
            final(self).wf(),
            final(self).limit() == old(self).limit(),
            left == active_ban(old(self)@, old(self).limit(), origin, now),
            left is Some ==> final(self)@ == old(self)@,
            left is None ==> final(self)@ == old(self)@.remove(origin),
    {
        match self.find(origin) {
            Some(i) => {
                proof {
                    lemma_lookup(self.records(), i as int);
                }
                let passed = elapsed_since(now, self.records[i].1);
                if passed < self.limit {
                    Some(self.limit - passed)
                } else {
                    proof {
                        lemma_remove(self.records(), i as int);
                    }
                    self.records.remove(i);
                    None
                }
            },
            None => {
                assert(self@.remove(origin) =~= self@);
                None
            },
        }
    }
}

} // verus!
