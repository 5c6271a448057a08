//! The packrat store: a cache from keys to memoized outcomes that, where it
//! has a capacity, gives up its oldest key to make room for a new one.

use crate::extra::ExtraKey;
use crate::key::CacheKey;
use crate::key::KeyModel;
use crate::table::Table;
use std::collections::VecDeque;
use vstd::prelude::*;

verus! {

/// What a store is, as a value: its capacity, the entry of each live key,
/// and the live keys from the oldest to the newest.
///
/// An entry is `None` where the rule failed at the key, and
/// `Some((value, length))` where it succeeded with `value` after consuming
/// `length` elements.
#[verifier::reject_recursive_types(U)]
pub struct StoreModel<T, U> {
    pub capacity: Option<usize>,
    pub entries: Map<KeyModel<U>, Option<(T, usize)>>,
    pub order: Seq<KeyModel<U>>,
}

impl<T, U> StoreModel<T, U> {
    /// The store of capacity `capacity` that holds nothing.
    pub open spec fn empty(capacity: Option<usize>) -> Self {
        StoreModel { capacity, entries: Map::empty(), order: Seq::empty() }
    }

    /// The live keys are those in `order`, each once, and a bounded store
    /// holds no more keys than its capacity (one key, where the capacity is
    /// zero).
    pub open spec fn wf(self) -> bool {
        &&& self.order.no_duplicates()
        &&& forall|k: KeyModel<U>| self.entries.contains_key(k) <==> self.order.contains(k)
        &&& self.capacity matches Some(n) ==> self.order.len() <= n || self.order.len() <= 1
    }

    /// Whether `key` is live.
    pub open spec fn contains(self, key: KeyModel<U>) -> bool {
        self.entries.contains_key(key)
    }

    /// The entry of `key`, where it is live.
    pub open spec fn get(self, key: KeyModel<U>) -> Option<Option<(T, usize)>> {
        if self.entries.contains_key(key) {
            Some(self.entries[key])
        } else {
            None
        }
    }

    /// Whether a bounded store has as many keys as its capacity allows.
    pub open spec fn is_full(self) -> bool {
        self.capacity matches Some(n) && self.order.len() >= n
    }

    /// The store without its oldest key.
    pub open spec fn evict_oldest(self) -> Self {
        StoreModel {
            capacity: self.capacity,
            entries: self.entries.remove(self.order[0]),
            order: self.order.drop_first(),
        }
    }

    /// The store after `key` is given the entry `entry`. A live key keeps its
    /// place in the order and only its entry changes. A new key becomes the
    /// newest, after the oldest key has left a store that was full.
    pub open spec fn insert(self, key: KeyModel<U>, entry: Option<(T, usize)>) -> Self {
        if self.entries.contains_key(key) {
            StoreModel {
                capacity: self.capacity,
                entries: self.entries.insert(key, entry),
                order: self.order,
            }
        } else {
            let room = if self.is_full() && self.order.len() > 0 {
                self.evict_oldest()
            } else {
                self
            };
            StoreModel {
                capacity: self.capacity,
                entries: room.entries.insert(key, entry),
                order: room.order.push(key),
            }
        }
    }

    /// The store with the same capacity and nothing in it.
    pub open spec fn clear(self) -> Self {
        Self::empty(self.capacity)
    }

    /// A well-formed store stays well-formed when a key is inserted.
    pub proof fn lemma_insert_wf(self, key: KeyModel<U>, entry: Option<(T, usize)>)
        requires
            self.wf(),
        ensures
            self.insert(key, entry).wf(),
    {
        let after = self.insert(key, entry);
        if self.entries.contains_key(key) {
            assert(after.wf());
        } else {
            let room = if self.is_full() && self.order.len() > 0 {
                self.evict_oldest()
            } else {
                self
            };
            assert(room.order.no_duplicates());
            assert forall|k: KeyModel<U>| room.entries.contains_key(k) <==> room.order.contains(
                k,
            ) by {
                if self.is_full() && self.order.len() > 0 {
                    if room.order.contains(k) {
                        let i = choose|i: int| 0 <= i < room.order.len() && room.order[i] == k;
                        assert(self.order[i + 1] == k);
                        assert(self.order.contains(k));
                    }
                    if self.order.contains(k) && k != self.order[0] {
                        let i = choose|i: int| 0 <= i < self.order.len() && self.order[i] == k;
                        assert(room.order[i - 1] == k);
                    }
                }
            }
            assert(!room.order.contains(key));
            assert forall|k: KeyModel<U>| after.entries.contains_key(k) <==> after.order.contains(
                k,
            ) by {
                if after.order.contains(k) {
                    let i = choose|i: int| 0 <= i < after.order.len() && after.order[i] == k;
                    if i < room.order.len() {
                        assert(room.order[i] == k);
                    }
                }
                if room.order.contains(k) {
                    let i = choose|i: int| 0 <= i < room.order.len() && room.order[i] == k;
                    assert(after.order[i] == k);
                }
                assert(after.order[room.order.len() as int] == key);
            }
            assert(after.order.no_duplicates());
        }
    }
}

/// A cache of rule outcomes with an optional bound on the number of keys.
#[verifier::reject_recursive_types(U)]
pub struct PackratStorage<T, U> {
    size: Option<usize>,
    map: Table<T, U>,
    keys: VecDeque<CacheKey<U>>,
}

impl<T, U> View for PackratStorage<T, U> {
    type V = StoreModel<T, U>;

    closed spec fn view(&self) -> StoreModel<T, U> {
        StoreModel {
            capacity: self.size,
            entries: self.map@,
            order: self.keys@.map_values(|k: CacheKey<U>| k@),
        }
    }
}

impl<T, U> PackratStorage<T, U> {
    #[verifier::type_invariant]
    spec fn inv(&self) -> bool {
        &&& self.map.wf()
        &&& self@.wf()
    }
}

impl<T, U> PackratStorage<T, U> where U: ExtraKey {
    /// An empty store that holds at most `size` keys, or any number of them
    /// where `size` is `None`.
    pub fn new(size: Option<usize>) -> (storage: Self)
        ensures
            storage@ == StoreModel::<T, U>::empty(size),
            storage@.wf(),
    {
        let map = Table::new();
        let keys = VecDeque::new();
        assert(keys@.map_values(|k: CacheKey<U>| k@) =~= Seq::empty());
        PackratStorage { size, map, keys }
    }

    /// The entry of `key`, if the key is live. Looking a key up changes
    /// nothing, its place in the order included.
    pub fn get(&self, key: &CacheKey<U>) -> (found: Option<&Option<(T, usize)>>)
        ensures
            self@.wf(),
            match found {
                Some(entry) => self@.get(key@) == Some(*entry),
                None => self@.get(key@) is None,
            },
    {
        proof {
            use_type_invariant(self);
        }
        self.map.get(key)
    }

    /// Gives `key` the entry `value`. Where the key is new and the store is
    /// full, the oldest key leaves first.
    pub fn insert(&mut self, key: CacheKey<U>, value: Option<(T, usize)>)
        ensures
            final(self)@ == old(self)@.insert(key@, value),
            final(self)@.wf(),
    {
        proof {
            use_type_invariant(&*self);
            self@.lemma_insert_wf(key@, value);
        }
        let mut taken = Self::new(self.size);
        std::mem::swap(self, &mut taken);
        let PackratStorage { size, mut map, mut keys } = taken;
        let known = map.get(&key).is_some();
        if !known {
            let full = match size {
                Some(size) => keys.len() >= size,
                None => false,
            };
            if full {
                match keys.pop_front() {
                    Some(oldest) => {
                        map.take(&oldest);
                        assert(keys@.map_values(|k: CacheKey<U>| k@) =~= old(self)@.order.drop_first());
                    },
                    None => {},
                }
            }
            let ghost room = keys@.map_values(|k: CacheKey<U>| k@);
            keys.push_back(key.duplicate());
            assert(keys@.map_values(|k: CacheKey<U>| k@) =~= room.push(key@));
        }
        map.put(key, value);
        *self = PackratStorage { size, map, keys };
    }

    /// Drops every key. The capacity stays.
    pub fn clear(&mut self)
        ensures
            final(self)@ == old(self)@.clear(),
            final(self)@.wf(),
    {
        *self = Self::new(self.size);
    }
}

} // verus!
