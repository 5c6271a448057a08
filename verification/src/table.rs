//! The table behind the store: entries found by their key, held in a hash
//! map from the key's offset to the few entries that share that offset.

use crate::extra::ExtraKey;
use crate::key::CacheKey;
use crate::key::KeyModel;
use std::collections::HashMap;
use vstd::prelude::*;

verus! {

/// One cached outcome with the key it was stored under.
pub(crate) struct Slot<T, U> {
    pub(crate) key: CacheKey<U>,
    pub(crate) entry: Option<(T, usize)>,
}

/// A map from cache keys to entries.
#[verifier::reject_recursive_types(U)]
pub(crate) struct Table<T, U> {
    buckets: HashMap<usize, Vec<Slot<T, U>>>,
    contents: Ghost<Map<KeyModel<U>, Option<(T, usize)>>>,
}

/// The index in `bucket` of the slot whose key is `key`, if there is one.
fn find<T, U: ExtraKey>(bucket: &Vec<Slot<T, U>>, key: &CacheKey<U>) -> (found: Option<usize>)
    ensures
        match found {
            Some(i) => i < bucket@.len() && bucket@[i as int].key@ == key@,
            None => forall|j: int| 0 <= j < bucket@.len() ==> bucket@[j].key@ != key@,
        },
{
    let mut i: usize = 0;
    while i < bucket.len()
        invariant
            i <= bucket@.len(),
            forall|j: int| 0 <= j < i ==> bucket@[j].key@ != key@,
        decreases bucket@.len() - i,
    {
        if bucket[i].key.same(key) {
            return Some(i);
        }
        i += 1;
    }
    None
}

impl<T, U> Table<T, U> {
    /// What the table maps each key to.
    pub(crate) closed spec fn view(&self) -> Map<KeyModel<U>, Option<(T, usize)>> {
        self.contents@
    }

    spec fn has_slot(&self, offset: usize, i: int) -> bool {
        self.buckets@.contains_key(offset) && 0 <= i < self.buckets@[offset]@.len()
    }

    spec fn slot(&self, offset: usize, i: int) -> Slot<T, U> {
        self.buckets@[offset]@[i]
    }

    /// Every slot lies in the bucket of its key's offset and holds what the
    /// table maps its key to, no bucket holds a key twice, and every key of
    /// the table has a slot.
    pub(crate) closed spec fn wf(&self) -> bool {
        &&& forall|offset: usize, i: int| #[trigger]
            self.has_slot(offset, i) ==> {
                let s = self.slot(offset, i);
                &&& s.key.position.offset == offset
                &&& self.contents@.contains_key(s.key@)
                &&& self.contents@[s.key@] == s.entry
            }
        &&& forall|offset: usize, i: int, j: int|
            #[trigger] self.has_slot(offset, i) && #[trigger] self.has_slot(offset, j) && i != j
                ==> self.slot(offset, i).key@ != self.slot(offset, j).key@
        &&& forall|k: KeyModel<U>| #[trigger]
            self.contents@.contains_key(k) ==> exists|i: int| #[trigger]
                self.has_slot(k.position.offset, i) && self.slot(k.position.offset, i).key@ == k
    }
}

impl<T, U: ExtraKey> Table<T, U> {
    /// The table that maps no key.
    pub(crate) fn new() -> (table: Self)
        ensures
            table.wf(),
            table@ == Map::<KeyModel<U>, Option<(T, usize)>>::empty(),
    {
        Table { buckets: HashMap::new(), contents: Ghost(Map::empty()) }
    }

    /// The entry of `key`, if the table maps it.
    pub(crate) fn get(&self, key: &CacheKey<U>) -> (found: Option<&Option<(T, usize)>>)
        requires
            self.wf(),
        ensures
            match found {
                Some(entry) => self@.contains_key(key@) && *entry == self@[key@],
                None => !self@.contains_key(key@),
            },
    {
        let offset = key.position.offset;
        match self.buckets.get(&offset) {
            None => None,
            Some(bucket) => {
                match find(bucket, key) {
                    Some(i) => {
                        assert(self.has_slot(offset, i as int));
                        Some(&bucket[i].entry)
                    },
                    None => None,
                }
            },
        }
    }

    /// Maps `key` to `entry`, in place of what it was mapped to before.
    pub(crate) fn put(&mut self, key: CacheKey<U>, entry: Option<(T, usize)>)
        requires
            old(self).wf(),
        ensures
            final(self).wf(),
            final(self)@ == old(self)@.insert(key@, entry),
    {
        let offset = key.position.offset;
        let ghost k = key@;
        let ghost e = entry;
        let ghost before = *self;
        let mut bucket = match self.buckets.remove(&offset) {
            Some(bucket) => bucket,
            None => Vec::new(),
        };
        let ghost old_bucket = bucket@;
        let found = find(&bucket, &key);
        let ghost found_at: int = match found {
            Some(i) => i as int,
            None => old_bucket.len() as int,
        };
        match found {
            Some(i) => {
                bucket.set(i, Slot { key, entry });
            },
            None => {
                bucket.push(Slot { key, entry });
            },
        }
        self.buckets.insert(offset, bucket);
        self.contents = Ghost(self.contents@.insert(k, e));
        proof {
            assert forall|o: usize, i: int| #[trigger] self.has_slot(o, i) implies {
                let s = self.slot(o, i);
                &&& s.key.position.offset == o
                &&& self.contents@.contains_key(s.key@)
                &&& self.contents@[s.key@] == s.entry
            } by {
                if o != offset {
                    assert(before.has_slot(o, i));
                } else if i != found_at {
                    assert(before.has_slot(o, i));
                    if found is Some {
                        assert(before.has_slot(o, found_at));
                    }
                }
            }
            assert forall|o: usize, i: int, j: int|
                #[trigger] self.has_slot(o, i) && #[trigger] self.has_slot(o, j) && i != j implies self.slot(
                o,
                i,
            ).key@ != self.slot(o, j).key@ by {
                if o != offset {
                    assert(before.has_slot(o, i));
                    assert(before.has_slot(o, j));
                } else {
                    if i < old_bucket.len() {
                        assert(before.has_slot(o, i));
                    }
                    if j < old_bucket.len() {
                        assert(before.has_slot(o, j));
                    }
                }
            }
            assert forall|q: KeyModel<U>| #[trigger] self.contents@.contains_key(q) implies exists|
                i: int,
            | #[trigger]
                self.has_slot(q.position.offset, i) && self.slot(q.position.offset, i).key@
                    == q by {
                if q == k {
                    assert(self.has_slot(offset, found_at));
                } else {
                    let i = choose|i: int| #[trigger]
                        before.has_slot(q.position.offset, i) && before.slot(
                            q.position.offset,
                            i,
                        ).key@ == q;
                    assert(self.has_slot(q.position.offset, i));
                }
            }
        }
    }

    /// Drops `key` and its entry from the table, if it maps it.
    pub(crate) fn take(&mut self, key: &CacheKey<U>)
        requires
            old(self).wf(),
        ensures
            final(self).wf(),
            final(self)@ == old(self)@.remove(key@),
    {
        let offset = key.position.offset;
        let ghost before = *self;
        let ghost mut found_at: int = -1;
        match self.buckets.remove(&offset) {
            None => {},
            Some(mut bucket) => {
                match find(&bucket, key) {
                    Some(i) => {
                        proof {
                            found_at = i as int;
                        }
                        bucket.remove(i);
                    },
                    None => {},
                }
                if bucket.len() > 0 {
                    self.buckets.insert(offset, bucket);
                }
            },
        }
        self.contents = Ghost(self.contents@.remove(key@));
        proof {
            let shift = |i: int| if found_at >= 0 && i >= found_at { i + 1 } else { i };
            assert forall|o: usize, i: int| #[trigger] self.has_slot(o, i) implies {
                let s = self.slot(o, i);
                &&& s.key.position.offset == o
                &&& self.contents@.contains_key(s.key@)
                &&& self.contents@[s.key@] == s.entry
            } by {
                if o != offset {
                    assert(before.has_slot(o, i));
                } else {
                    assert(before.has_slot(o, shift(i)));
                    if found_at >= 0 {
                        assert(before.has_slot(o, found_at));
                    }
                }
            }
            assert forall|o: usize, i: int, j: int|
                #[trigger] self.has_slot(o, i) && #[trigger] self.has_slot(o, j) && i != j implies self.slot(
                o,
                i,
            ).key@ != self.slot(o, j).key@ by {
                if o != offset {
                    assert(before.has_slot(o, i));
                    assert(before.has_slot(o, j));
                } else {
                    assert(before.has_slot(o, shift(i)));
                    assert(before.has_slot(o, shift(j)));
                }
            }
            assert forall|q: KeyModel<U>| #[trigger] self.contents@.contains_key(q) implies exists|
                i: int,
            | #[trigger]
                self.has_slot(q.position.offset, i) && self.slot(q.position.offset, i).key@
                    == q by {
                let i = choose|i: int| #[trigger]
                    before.has_slot(q.position.offset, i) && before.slot(
                        q.position.offset,
                        i,
                    ).key@ == q;
                if q.position.offset != offset {
                    assert(self.has_slot(q.position.offset, i));
                } else {
                    let j = if found_at >= 0 && i > found_at { i - 1 } else { i };
                    assert(self.has_slot(offset, j));
                }
            }
        }
    }

    /// Drops every key.
    pub(crate) fn clear(&mut self)
        ensures
            final(self).wf(),
            final(self)@ == Map::<KeyModel<U>, Option<(T, usize)>>::empty(),
    {
        self.buckets.clear();
        self.contents = Ghost(Map::empty());
    }
}

} // verus!
