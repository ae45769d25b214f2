//! The expiring key-value store: a mapping from key to record, keys unique,
//! with expiry-aware lookup.
use crate::record::{Record, Stored, spec_expired};
use crate::resp::bytes_eq;
use vstd::pervasive::VecAdditionalExecFns;
use vstd::prelude::*;

verus! {

/// The store. A lookup of an expired record behaves as if the key were
/// absent; expired entries are noticed lazily at read time, never purged by
/// any background task.
pub struct Database {
    records: Vec<Record>,
}

impl Database {
    /// The store's invariant: no two entries share a key.
    pub closed spec fn wf(self) -> bool {
        forall|i: int, j: int|
            0 <= i < self.records@.len() && 0 <= j < self.records@.len() && i != j
                ==> self.records@[i].key@ != self.records@[j].key@
    }

    spec fn has_key(self, k: Seq<u8>) -> bool {
        exists|i: int| 0 <= i < self.records@.len() && #[trigger] self.records@[i].key@ == k
    }

    /// The index of the entry holding `k`.
    spec fn key_index(self, k: Seq<u8>) -> int {
        choose|i: int| 0 <= i < self.records@.len() && #[trigger] self.records@[i].key@ == k
    }

    /// Makes the empty store.
    pub fn new() -> (db: Database)
        ensures
            db.wf(),
            db@ == Map::<Seq<u8>, Stored>::empty(),
    {
        let db = Database { records: Vec::new() };
        proof {
            assert(db@ =~= Map::<Seq<u8>, Stored>::empty());
        }
        db
    }

    fn find_index(&self, key: &[u8]) -> (r: Option<usize>)
        ensures
            match r {
                Some(i) => i < self.records@.len() && self.records@[i as int].key@ == key@,
                None => forall|i: int|
                    0 <= i < self.records@.len() ==> #[trigger] self.records@[i].key@ != key@,
            },
    {
        let mut i: usize = 0;
        while i < self.records.len()
            invariant
                i <= self.records@.len(),
                forall|j: int| 0 <= j < i ==> #[trigger] self.records@[j].key@ != key@,
            decreases self.records@.len() - i,
        {
            if bytes_eq(self.records[i].key.as_slice(), key) {
                return Some(i);
            }
            i = i + 1;
        }
        None
    }

    /// Unconditionally overwrites any existing record for the record's key.
    pub fn insert(&mut self, record: Record)
        requires
            old(self).wf(),
        ensures
            final(self).wf(),
            final(self)@ == old(self)@.insert(record.key@, record.stored()),
    {
        let ghost k = record.key@;
        let ghost stored = record.stored();
        let ghost oldrecs = self.records@;
        let idx = self.find_index(record.key.as_slice());
        match idx {
            Some(i) => {
                self.records.set(i, record);
                proof {
                    let newrecs = self.records@;
                    assert forall|x: int| 0 <= x < newrecs.len() implies #[trigger] newrecs[x].key@
                        == oldrecs[x].key@ by {
                        if x != i {
                            assert(newrecs[x] == oldrecs[x]);
                        }
                    }
                }
            },
            None => {
                self.records.push(record);
            },
        }
        proof {
            let newrecs = self.records@;
            assert(self.wf());
            let target = old(self)@.insert(k, stored);
            assert forall|k2: Seq<u8>| self@.contains_key(k2) == target.contains_key(k2) by {
                if k2 == k {
                    assert(self.has_key(k2)) by {
                        match idx {
                            Some(i) => assert(newrecs[i as int].key@ == k2),
                            None => assert(newrecs[newrecs.len() - 1].key@ == k2),
                        }
                    }
                } else {
                    if self.has_key(k2) {
                        let i2 = self.key_index(k2);
                        assert(newrecs[i2].key@ == k2);
                        assert(oldrecs[i2].key@ == k2);
                        assert(old(self).has_key(k2));
                    }
                    if old(self).has_key(k2) {
                        let i2 = old(self).key_index(k2);
                        assert(oldrecs[i2].key@ == k2);
                        assert(newrecs[i2].key@ == k2);
                    }
                }
            }
            assert forall|k2: Seq<u8>| self@.contains_key(k2) implies self@[k2] == target[k2] by {
                let i2 = self.key_index(k2);
                assert(newrecs[i2].key@ == k2);
                if k2 == k {
                    match idx {
                        Some(i) => {
                            assert(newrecs[i as int].key@ == k2);
                            assert(i2 == i);
                        },
                        None => {
                            assert(newrecs[newrecs.len() - 1].key@ == k2);
                            assert(i2 == newrecs.len() - 1);
                        },
                    }
                    assert(self@[k2] == stored);
                } else {
                    match idx {
                        Some(i) => {
                            assert(i2 != i);
                            assert(newrecs[i2] == oldrecs[i2]);
                        },
                        None => {
                            assert(i2 != newrecs.len() - 1);
                            assert(newrecs[i2] == oldrecs[i2]);
                        },
                    }
                    assert(old(self).has_key(k2));
                    let i3 = old(self).key_index(k2);
                    assert(oldrecs[i3].key@ == k2);
                    assert(i3 == i2);
                    assert(self@[k2] == old(self)@[k2]);
                }
            }
            assert(self@ =~= target);
        }
    }

    /// Looks `key` up: nothing when the key is absent or the stored record
    /// is already expired at `now_ms`; the record itself otherwise. The map
    /// is never mutated by a read.
    pub fn get(&self, key: &[u8], now_ms: i64) -> (r: Option<&Record>)
        requires
            self.wf(),
        ensures
            match r {
                Some(rec) => self@.contains_key(key@) && !spec_expired(
                    self@[key@].expiry,
                    now_ms as int,
                ) && rec.key@ == key@ && rec.stored() == self@[key@],
                None => !self@.contains_key(key@) || spec_expired(
                    self@[key@].expiry,
                    now_ms as int,
                ),
            },
    {
        match self.find_index(key) {
            Some(i) => {
                let rec = &self.records[i];
                proof {
                    assert(self.has_key(key@)) by {
                        assert(self.records@[i as int].key@ == key@);
                    }
                    let i2 = self.key_index(key@);
                    assert(self.records@[i2].key@ == key@);
                    assert(i2 == i);
                    assert(self@[key@] == self.records@[i as int].stored());
                }
                if rec.is_expired(now_ms) {
                    None
                } else {
                    Some(rec)
                }
            },
            None => {
                proof {
                    assert(!self.has_key(key@));
                }
                None
            },
        }
    }
}

impl View for Database {
    type V = Map<Seq<u8>, Stored>;

    /// The store as the mapping it represents.
    closed spec fn view(&self) -> Map<Seq<u8>, Stored> {
        Map::new(
            |k: Seq<u8>| self.has_key(k),
            |k: Seq<u8>| self.records@[self.key_index(k)].stored(),
        )
    }
}

} // verus!
