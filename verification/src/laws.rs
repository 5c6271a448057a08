//! What holds of the store and of the memoized invocation, for every store,
//! key and outcome.

use crate::cursor::Cursor;
use crate::key::KeyModel;
use crate::protocol::decided;
use crate::protocol::fresh;
use crate::protocol::recordable;
use crate::protocol::recorded;
use crate::protocol::records;
use crate::protocol::replayable;
use crate::protocol::replayed;
use crate::protocol::Failure;
use crate::protocol::Phase;
use crate::storage::StoreModel;
use vstd::prelude::*;

verus! {

/// The store after the keys of `keys` have been inserted into `store` one
/// after another, each with the entry at its index in `entries`.
pub open spec fn insert_all<T, U>(
    store: StoreModel<T, U>,
    keys: Seq<KeyModel<U>>,
    entries: Seq<Option<(T, usize)>>,
) -> StoreModel<T, U>
    decreases keys.len(),
{
    if keys.len() == 0 {
        store
    } else {
        insert_all(store, keys.drop_last(), entries.drop_last()).insert(keys.last(), entries.last())
    }
}

/// Of `count` keys inserted into an empty store of capacity `capacity`, the
/// index of the oldest that is still live.
pub open spec fn oldest_live(capacity: Option<usize>, count: nat) -> int {
    match capacity {
        None => 0,
        Some(n) => {
            let room: int = if n == 0 {
                1
            } else {
                n as int
            };
            if count > room {
                count - room
            } else {
                0
            }
        },
    }
}

/// First in, first out: after distinct keys have been inserted into an empty
/// store, the live keys are the newest of them, as many as the capacity
/// allows and in the order of their insertion, each with the entry it was
/// inserted with. The keys before them are gone.
pub proof fn lemma_newest_keys_are_live<T, U>(
    capacity: Option<usize>,
    keys: Seq<KeyModel<U>>,
    entries: Seq<Option<(T, usize)>>,
)
    requires
        keys.no_duplicates(),
        entries.len() == keys.len(),
    ensures
        ({
            let store = insert_all(StoreModel::<T, U>::empty(capacity), keys, entries);
            let first = oldest_live(capacity, keys.len());
            &&& store.wf()
            &&& store.capacity == capacity
            &&& store.order == keys.subrange(first, keys.len() as int)
            &&& forall|i: int| 0 <= i < first ==> store.get(#[trigger] keys[i]) is None
            &&& forall|i: int|
                first <= i < keys.len() ==> store.get(#[trigger] keys[i]) == Some(entries[i])
        }),
    decreases keys.len(),
{
    let start = StoreModel::<T, U>::empty(capacity);
    let store = insert_all(start, keys, entries);
    let first = oldest_live(capacity, keys.len());
    if keys.len() == 0 {
        assert(store.order =~= keys.subrange(first, keys.len() as int));
    } else {
        let n = keys.len() as int;
        let earlier_keys = keys.drop_last();
        let earlier_entries = entries.drop_last();
        let earlier = insert_all(start, earlier_keys, earlier_entries);
        let earlier_first = oldest_live(capacity, earlier_keys.len());
        lemma_newest_keys_are_live(capacity, earlier_keys, earlier_entries);
        let key = keys.last();
        let entry = entries.last();
        assert(earlier.order == earlier_keys.subrange(earlier_first, n - 1));
        assert(!earlier.contains(key)) by {
            if earlier.order.contains(key) {
                let i = choose|i: int| 0 <= i < earlier.order.len() && earlier.order[i] == key;
                assert(keys[earlier_first + i] == key);
            }
        }
        earlier.lemma_insert_wf(key, entry);
        assert(store.order =~= keys.subrange(first, n));
        assert forall|i: int| 0 <= i < first implies store.get(#[trigger] keys[i]) is None by {
            if i < earlier_first {
                assert(earlier.get(earlier_keys[i]) is None);
            }
        }
        assert forall|i: int| first <= i < n implies store.get(#[trigger] keys[i]) == Some(
            entries[i],
        ) by {
            if i < n - 1 {
                assert(earlier.get(earlier_keys[i]) == Some(earlier_entries[i]));
                assert(earlier.order[0] == keys[earlier_first]);
            }
        }
    }
}

/// Eviction: after one key more than a bounded store holds has been
/// inserted into it, all keys distinct, the first key is gone and every
/// other key is found with its entry. The capacity is one or more: a store
/// of capacity zero keeps its newest key, as a store of capacity one does.
pub proof fn lemma_oldest_key_is_evicted<T, U>(
    capacity: usize,
    keys: Seq<KeyModel<U>>,
    entries: Seq<Option<(T, usize)>>,
)
    requires
        capacity >= 1,
        keys.len() == capacity + 1,
        entries.len() == keys.len(),
        keys.no_duplicates(),
    ensures
        ({
            let store = insert_all(StoreModel::<T, U>::empty(Some(capacity)), keys, entries);
            &&& store.get(keys[0]) is None
            &&& forall|i: int| 1 <= i <= capacity ==> store.get(#[trigger] keys[i]) == Some(entries[i])
        }),
{
    lemma_newest_keys_are_live(Some(capacity), keys, entries);
}

/// Keys that differ in their extra state are different keys, and an insert
/// under one of them never changes the entry of the other: afterwards the
/// other key has the entry it had, or it has left the store as its oldest
/// key.
pub proof fn lemma_extra_state_separates_entries<T, U>(
    store: StoreModel<T, U>,
    key: KeyModel<U>,
    other: KeyModel<U>,
    entry: Option<(T, usize)>,
)
    requires
        store.wf(),
        key.extra != other.extra,
    ensures
        key != other,
        ({
            let after = store.insert(key, entry);
            ||| after.get(other) == store.get(other)
            ||| after.get(other) is None && store.order.len() > 0 && store.order[0] == other
        }),
{
}

/// Two keys that differ in their extra state are cached side by side: in a
/// store with no bound, or with a bound of two or more that does not yet hold
/// the first key, each is found with its own entry after both were inserted.
pub proof fn lemma_extra_states_cached_side_by_side<T, U>(
    store: StoreModel<T, U>,
    first: KeyModel<U>,
    second: KeyModel<U>,
    x: Option<(T, usize)>,
    y: Option<(T, usize)>,
)
    requires
        store.wf(),
        first.rule == second.rule,
        first.position == second.position,
        first.extra != second.extra,
        store.capacity matches Some(n) ==> n >= 2 && !store.contains(first),
    ensures
        ({
            let after = store.insert(first, x).insert(second, y);
            &&& after.get(first) == Some(x)
            &&& after.get(second) == Some(y)
        }),
{
    store.lemma_insert_wf(first, x);
    let middle = store.insert(first, x);
    if store.capacity is Some && !middle.contains(second) && middle.is_full() {
        assert(middle.order.last() == first);
        assert(middle.order[0] != first);
    }
}

/// One step in the life of a store.
#[verifier::reject_recursive_types(U)]
pub enum Operation<T, U> {
    /// A key is given an entry.
    Insert(KeyModel<U>, Option<(T, usize)>),
    /// Everything is dropped.
    Clear,
}

/// The store after one operation.
pub open spec fn apply<T, U>(store: StoreModel<T, U>, operation: Operation<T, U>) -> StoreModel<
    T,
    U,
> {
    match operation {
        Operation::Insert(key, entry) => store.insert(key, entry),
        Operation::Clear => store.clear(),
    }
}

/// The store after the operations of `operations`, in their order.
pub open spec fn run<T, U>(store: StoreModel<T, U>, operations: Seq<Operation<T, U>>) -> StoreModel<
    T,
    U,
>
    decreases operations.len(),
{
    if operations.len() == 0 {
        store
    } else {
        apply(run(store, operations.drop_last()), operations.last())
    }
}

/// A well-formed store stays well-formed whatever is done to it, and keeps
/// its capacity.
pub proof fn lemma_run_wf<T, U>(store: StoreModel<T, U>, operations: Seq<Operation<T, U>>)
    requires
        store.wf(),
    ensures
        run(store, operations).wf(),
        run(store, operations).capacity == store.capacity,
    decreases operations.len(),
{
    if operations.len() > 0 {
        lemma_run_wf(store, operations.drop_last());
        let earlier = run(store, operations.drop_last());
        match operations.last() {
            Operation::Insert(key, entry) => {
                earlier.lemma_insert_wf(key, entry);
            },
            Operation::Clear => {},
        }
    }
}

/// Isolation: a store that began empty holds a key only if that key was
/// inserted into this very store. What is inserted into another store is
/// never found in it.
pub proof fn lemma_live_keys_were_inserted<T, U>(
    capacity: Option<usize>,
    operations: Seq<Operation<T, U>>,
    key: KeyModel<U>,
)
    requires
        run(StoreModel::<T, U>::empty(capacity), operations).contains(key),
    ensures
        exists|i: int|
            0 <= i < operations.len() && (#[trigger] operations[i] matches Operation::Insert(k, _)
                && k == key),
    decreases operations.len(),
{
    let start = StoreModel::<T, U>::empty(capacity);
    if operations.len() > 0 {
        let earlier = run(start, operations.drop_last());
        let last = operations.len() - 1;
        match operations.last() {
            Operation::Insert(k, _) => {
                if k == key {
                    assert(operations[last] matches Operation::Insert(k, _) && k == key);
                } else {
                    assert(earlier.contains(key));
                    lemma_live_keys_were_inserted(capacity, operations.drop_last(), key);
                    let i = choose|i: int|
                        0 <= i < operations.drop_last().len() && (
                        #[trigger] operations.drop_last()[i] matches Operation::Insert(k, _) && k
                            == key);
                    assert(operations[i] == operations.drop_last()[i]);
                }
            },
            Operation::Clear => {},
        }
    }
}

/// A cleared store is an empty store: whatever two stores of one capacity
/// held, once cleared they are the same store, and stay the same through any
/// equal course of operations, so that every lookup gives the same in both.
pub proof fn lemma_clear_starts_afresh<T, U>(
    a: StoreModel<T, U>,
    b: StoreModel<T, U>,
    operations: Seq<Operation<T, U>>,
)
    requires
        a.capacity == b.capacity,
    ensures
        a.clear() == StoreModel::<T, U>::empty(a.capacity),
        a.clear() == b.clear(),
        run(a.clear(), operations) == run(b.clear(), operations),
        forall|key: KeyModel<U>|
            run(a.clear(), operations).get(key) == run(b.clear(), operations).get(key),
{
}

/// Every live entry of `store` is an entry that `truth` accepts for its key.
pub open spec fn faithful<T, U>(
    store: StoreModel<T, U>,
    truth: spec_fn(KeyModel<U>, Option<(T, usize)>) -> bool,
) -> bool {
    forall|key: KeyModel<U>| #[trigger] store.contains(key) ==> truth(key, store.entries[key])
}

/// A store that holds only faithful records keeps holding only faithful
/// records when faithful records are inserted and when it is cleared. An
/// empty store holds only faithful records.
pub proof fn lemma_faithful_records_stay<T, U>(
    store: StoreModel<T, U>,
    truth: spec_fn(KeyModel<U>, Option<(T, usize)>) -> bool,
    operations: Seq<Operation<T, U>>,
)
    requires
        faithful(store, truth),
        forall|i: int|
            0 <= i < operations.len() ==> (#[trigger] operations[i] matches Operation::Insert(
                key,
                entry,
            ) ==> truth(key, entry)),
    ensures
        faithful(run(store, operations), truth),
        faithful(StoreModel::<T, U>::empty(store.capacity), truth),
    decreases operations.len(),
{
    if operations.len() > 0 {
        let earlier_operations = operations.drop_last();
        assert forall|i: int| 0 <= i < earlier_operations.len() implies (
        #[trigger] earlier_operations[i] matches Operation::Insert(key, entry) ==> truth(
            key,
            entry,
        )) by {
            assert(earlier_operations[i] == operations[i]);
        }
        lemma_faithful_records_stay(store, truth, earlier_operations);
        let earlier = run(store, earlier_operations);
        let after = run(store, operations);
        assert(operations[operations.len() - 1] == operations.last());
        assert forall|key: KeyModel<U>| #[trigger] after.contains(key) implies truth(
            key,
            after.entries[key],
        ) by {
            match operations.last() {
                Operation::Insert(k, e) => {
                    if key != k {
                        assert(earlier.contains(key));
                    }
                },
                Operation::Clear => {},
            }
        }
    }
}

/// No work on a hit: the lookup asks for the body exactly where the store
/// holds nothing that can be replayed. Where the key is live with a failure,
/// or with a success that the cursor has the elements for, the body is not
/// asked for.
pub proof fn lemma_hit_asks_for_no_body<T: Clone, U, X>(
    store: StoreModel<T, U>,
    key: KeyModel<U>,
    cursor: Cursor<X>,
    phase: Phase<T, X>,
)
    requires
        decided(store, key, cursor, phase),
    ensures
        phase is Run <==> !replayable(store.get(key), cursor@.remaining),
        phase is Rejected <==> store.get(key) == Some(None::<(T, usize)>),
        phase is Accepted <==> (store.get(key) matches Some(Some((_, length))) && length
            <= cursor@.remaining),
{
}

/// Memoization does not change what a rule returns: where the store holds,
/// for the key of a rule at a cursor, the record of what the rule's body
/// returns at that cursor, the lookup replays that outcome. A success comes
/// back at the very cursor that the body returned, with a copy of a copy of
/// its value; a failure comes back as a failure, without its error. The
/// cursor that the body returned is taken to be the cursor it was given,
/// advanced.
pub proof fn lemma_replay_equals_body<T: Clone, U, X, E>(
    store: StoreModel<T, U>,
    key: KeyModel<U>,
    cursor: Cursor<X>,
    outcome: Result<(Cursor<X>, T), E>,
    phase: Phase<T, X>,
)
    requires
        cursor@.wf(),
        key.position == cursor@.position,
        outcome matches Ok((rest, _)) ==> cursor@.reaches(rest@),
        store.contains(key),
        records(store.entries[key], key, outcome),
        decided(store, key, cursor, phase),
    ensures
        match outcome {
            Ok((rest, value)) => {
                &&& phase matches Phase::Accepted(later, replayed)
                &&& later@ == rest@
                &&& exists|stored: T| cloned(value, stored) && cloned(stored, replayed)
            },
            Err(_) => phase == Phase::Rejected::<T, X>(cursor),
        },
{
    match outcome {
        Ok((rest, value)) => {
            match store.entries[key] {
                Some((stored, _)) => {
                    assert(cloned(value, stored));
                },
                None => {},
            }
        },
        Err(_) => {},
    }
}

/// Whether the outcome of a memoized invocation at `cursor` is the outcome
/// `plain` of the rule's body there: a success at the same cursor with the
/// same value, or a copy of a copy of it; a failure for a failure, fresh with
/// the same error or replayed without it.
pub open spec fn same_outcome<T: Clone, X, E>(
    cursor: Cursor<X>,
    outcome: Result<(Cursor<X>, T), Failure<X, E>>,
    plain: Result<(Cursor<X>, T), E>,
) -> bool {
    match plain {
        Ok((rest, value)) => {
            &&& outcome matches Ok((later, given))
            &&& later@ == rest@
            &&& given == value || exists|stored: T| cloned(value, stored) && cloned(stored, given)
        },
        Err(error) => {
            &&& outcome matches Err(failure)
            &&& failure == Failure::Fresh::<X, E>(error) || failure == Failure::Replayed::<X, E>(
                cursor,
            )
        },
    }
}

/// Semantic equivalence, one invocation at a time. Let `plain` be what the
/// body of a rule returns at `cursor`, and let every live entry of the store
/// be a faithful record, where the faithful records for this rule's key are
/// the records of `plain`. Then a memoized invocation, whether it replays
/// what the store `before` holds or runs the body on a store that it leaves
/// as `left` and records the outcome, returns what the body returns and
/// leaves a store `after` in which every live entry is again a faithful
/// record.
pub proof fn lemma_memoized_equals_plain<T: Clone, U, X, E>(
    truth: spec_fn(KeyModel<U>, Option<(T, usize)>) -> bool,
    key: KeyModel<U>,
    cursor: Cursor<X>,
    plain: Result<(Cursor<X>, T), E>,
    before: StoreModel<T, U>,
    left: StoreModel<T, U>,
    after: StoreModel<T, U>,
    outcome: Result<(Cursor<X>, T), Failure<X, E>>,
)
    requires
        cursor@.wf(),
        key.position == cursor@.position,
        plain matches Ok((rest, _)) ==> cursor@.reaches(rest@),
        forall|entry: Option<(T, usize)>| #[trigger] truth(key, entry) <==> records(entry, key, plain),
        faithful(before, truth),
        faithful(left, truth),
        if replayable(before.get(key), cursor@.remaining) {
            after == before && replayed(before, key, cursor, outcome)
        } else {
            recorded(left, key, plain, after) && outcome == fresh(plain)
        },
    ensures
        same_outcome(cursor, outcome, plain),
        faithful(after, truth),
{
    if replayable(before.get(key), cursor@.remaining) {
        assert(before.contains(key));
        assert(truth(key, before.entries[key]));
        match outcome {
            Ok((later, given)) => {
                lemma_replay_equals_body(before, key, cursor, plain, Phase::Accepted(later, given));
            },
            Err(Failure::Replayed(same)) => {
                lemma_replay_equals_body(before, key, cursor, plain, Phase::Rejected(same));
            },
            Err(Failure::Fresh(_)) => {},
        }
    } else {
        assert(recordable(key, plain));
        let entry = after.entries[key];
        assert(truth(key, entry));
        assert forall|k: KeyModel<U>| #[trigger] after.contains(k) implies truth(
            k,
            after.entries[k],
        ) by {
            if k != key {
                assert(left.contains(k));
            }
        }
    }
}

} // verus!
