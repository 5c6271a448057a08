//! The memoized invocation of a rule: look the rule up before its body runs,
//! replay what was recorded, and record what the body returned.

use crate::cursor::Cursor;
use crate::extra::ExtraKey;
use crate::extra::HasExtraState;
use crate::key::CacheKey;
use crate::key::KeyModel;
use crate::storage::PackratStorage;
use crate::storage::StoreModel;
use vstd::prelude::*;

verus! {

/// What the lookup before a rule's body decides.
#[derive(Debug, PartialEq, Eq)]
pub enum Phase<T, X> {
    /// The rule succeeded here before: the cursor behind what it consumed,
    /// and its value. The body does not run.
    Accepted(Cursor<X>, T),
    /// The rule failed here before. The body does not run; the cursor is
    /// handed back as it came.
    Rejected(Cursor<X>),
    /// Nothing that can be replayed is recorded: the body runs on the cursor,
    /// which is handed back as it came.
    Run(Cursor<X>),
}

/// Why a memoized rule failed.
#[derive(Debug, PartialEq, Eq)]
pub enum Failure<X, E> {
    /// The rule failed at this cursor before. Why it failed then was not
    /// kept.
    Replayed(Cursor<X>),
    /// The body ran and failed with this error.
    Fresh(E),
}

/// Whether what the store holds for a key can be replayed at a cursor with
/// `remaining` elements left: a recorded failure always, a recorded success
/// where the cursor has the elements that it consumed.
pub open spec fn replayable<T>(found: Option<Option<(T, usize)>>, remaining: usize) -> bool {
    match found {
        None => false,
        Some(None) => true,
        Some(Some((_, length))) => length <= remaining,
    }
}

/// Whether `phase` is what a lookup of `key` decides at `cursor` in `store`.
pub open spec fn decided<T: Clone, U, X>(
    store: StoreModel<T, U>,
    key: KeyModel<U>,
    cursor: Cursor<X>,
    phase: Phase<T, X>,
) -> bool {
    match phase {
        Phase::Accepted(later, value) => {
            &&& store.get(key) matches Some(Some((stored, length)))
            &&& length <= cursor@.remaining
            &&& later@ == cursor@.advance(length)
            &&& cloned(stored, value)
        },
        Phase::Rejected(same) => store.get(key) == Some(None::<(T, usize)>) && same == cursor,
        Phase::Run(same) => !replayable(store.get(key), cursor@.remaining) && same == cursor,
    }
}

/// Whether `entry` is the record of `outcome` for the rule keyed `key`: for
/// a success, a copy of its value and the number of elements from the key's
/// position to the cursor it returned; for a failure, nothing of its error.
pub open spec fn records<T: Clone, U, X, E>(
    entry: Option<(T, usize)>,
    key: KeyModel<U>,
    outcome: Result<(Cursor<X>, T), E>,
) -> bool {
    match outcome {
        Ok((rest, value)) => {
            &&& entry matches Some((stored, length))
            &&& key.position.span_to(rest@.position) == Some(length)
            &&& cloned(value, stored)
        },
        Err(_) => entry is None,
    }
}

/// Whether an outcome can be recorded under `key`: a failure always, a
/// success where the cursor it returned lies in the key's buffer, at the
/// key's position or behind it.
pub open spec fn recordable<T, U, X, E>(key: KeyModel<U>, outcome: Result<(Cursor<X>, T), E>) -> bool {
    outcome matches Ok((rest, _)) ==> key.position.span_to(rest@.position) is Some
}

/// Whether `after` is `before` with the outcome of the rule keyed `key`
/// recorded: the key is given the record of the outcome, or, where the
/// outcome cannot be recorded, the store is left as it was.
pub open spec fn recorded<T: Clone, U, X, E>(
    before: StoreModel<T, U>,
    key: KeyModel<U>,
    outcome: Result<(Cursor<X>, T), E>,
    after: StoreModel<T, U>,
) -> bool {
    if recordable(key, outcome) {
        &&& after.contains(key)
        &&& records(after.entries[key], key, outcome)
        &&& after == before.insert(key, after.entries[key])
    } else {
        after == before
    }
}

/// Looks `key` up for a rule invoked at `cursor`. A recorded success is
/// replayed by advancing the cursor by the recorded length, a recorded
/// failure is replayed as such, and the body is asked for where the key is
/// not live or the recorded length is more than the cursor has left.
pub fn lookup<T: Clone, U: ExtraKey, X>(
    storage: &PackratStorage<T, U>,
    key: &CacheKey<U>,
    cursor: Cursor<X>,
) -> (phase: Phase<T, X>)
    ensures
        decided(storage@, key@, cursor, phase),
{
    match storage.get(key) {
        None => Phase::Run(cursor),
        Some(None) => Phase::Rejected(cursor),
        Some(Some((stored, length))) => {
            if *length <= cursor.remaining() {
                let value = stored.clone();
                Phase::Accepted(cursor.advance(*length), value)
            } else {
                Phase::Run(cursor)
            }
        },
    }
}

/// The before phase of rule `rule` at `cursor`: forms the key from the cursor
/// as it stands and looks it up. The key is handed back for the after phase.
pub fn before<T: Clone, U: ExtraKey, X>(
    storage: &PackratStorage<T, U>,
    rule: &'static str,
    cursor: Cursor<X>,
) -> (found: (CacheKey<U>, Phase<T, X>)) where Cursor<X>: HasExtraState<U>
    ensures
        found.0@.rule == rule@,
        found.0@.position == cursor@.position,
        cursor.reports(found.0@.extra),
        decided(storage@, found.0@, cursor, found.1),
{
    let key = cursor.key(rule);
    let phase = lookup(storage, &key, cursor);
    (key, phase)
}

/// The after phase: records the body's outcome under the key of the before
/// phase and hands the outcome back unchanged.
pub fn after<T: Clone, U: ExtraKey, X, E>(
    storage: &mut PackratStorage<T, U>,
    key: CacheKey<U>,
    outcome: Result<(Cursor<X>, T), E>,
) -> (returned: Result<(Cursor<X>, T), E>)
    ensures
        returned == outcome,
        recorded(old(storage)@, key@, outcome, final(storage)@),
{
    match &outcome {
        Ok((rest, value)) => {
            let here = rest.position();
            match key.position.distance_to(&here) {
                Some(length) => {
                    let stored = value.clone();
                    storage.insert(key, Some((stored, length)));
                },
                None => {},
            }
        },
        Err(_) => {
            storage.insert(key, None);
        },
    }
    outcome
}

/// The key of rule `rule` at `cursor`, where the cursor reports `extra`.
pub open spec fn key_at<U, X>(rule: &str, cursor: Cursor<X>, extra: U) -> KeyModel<U> {
    KeyModel { rule: rule@, position: cursor@.position, extra }
}

/// The outcome of a body as the outcome of the memoized rule.
pub open spec fn fresh<T, X, E>(outcome: Result<(Cursor<X>, T), E>) -> Result<
    (Cursor<X>, T),
    Failure<X, E>,
> {
    match outcome {
        Ok(done) => Ok(done),
        Err(error) => Err(Failure::Fresh(error)),
    }
}

/// Whether `outcome` is the replay of what `store` holds for `key` at
/// `cursor`: the recorded success behind what it consumed, or a failure that
/// says no more than that the rule failed here before.
pub open spec fn replayed<T: Clone, U, X, E>(
    store: StoreModel<T, U>,
    key: KeyModel<U>,
    cursor: Cursor<X>,
    outcome: Result<(Cursor<X>, T), Failure<X, E>>,
) -> bool {
    match outcome {
        Ok((later, value)) => decided(store, key, cursor, Phase::Accepted(later, value)),
        Err(Failure::Replayed(same)) => decided(store, key, cursor, Phase::Rejected(same)),
        Err(Failure::Fresh(_)) => false,
    }
}

/// Invokes rule `rule` at `cursor` through the store: replays what the store
/// holds for the rule at this cursor, or else runs `body` once and records
/// what it returns. The body is not needed, and so not run, where the store
/// holds what can be replayed.
pub fn packrat_parser<T, U, X, E, F>(
    storage: &mut PackratStorage<T, U>,
    rule: &'static str,
    cursor: Cursor<X>,
    body: F,
) -> (outcome: Result<(Cursor<X>, T), Failure<X, E>>) where
    T: Clone,
    U: ExtraKey,
    Cursor<X>: HasExtraState<U>,
    F: FnOnce(&mut PackratStorage<T, U>, Cursor<X>) -> Result<(Cursor<X>, T), E>,

    requires
        forall|extra: U, s: &mut PackratStorage<T, U>|
            #![trigger cursor.reports(extra), body.requires((s, cursor))]
            cursor.reports(extra) && *s == *old(storage) && !replayable(
                old(storage)@.get(key_at(rule, cursor, extra)),
                cursor@.remaining,
            ) ==> body.requires((s, cursor)),
    ensures
        (exists|extra: U|
            {
                let key = key_at(rule, cursor, extra);
                &&& #[trigger] cursor.reports(extra)
                &&& if replayable(old(storage)@.get(key), cursor@.remaining) {
                    &&& final(storage)@ == old(storage)@
                    &&& replayed(old(storage)@, key, cursor, outcome)
                } else {
                    exists|s: &mut PackratStorage<T, U>, ran: Result<(Cursor<X>, T), E>|
                        {
                            &&& *s == *old(storage)
                            &&& #[trigger] body.ensures((s, cursor), ran)
                            &&& recorded(final(s)@, key, ran, final(storage)@)
                            &&& outcome == fresh(ran)
                        }
                }
            }),
{
    let (key, phase) = before(storage, rule, cursor);
    assert(cursor.reports(key@.extra));
    match phase {
        Phase::Accepted(later, value) => Ok((later, value)),
        Phase::Rejected(same) => Err(Failure::Replayed(same)),
        Phase::Run(same) => {
            let ran = body(storage, same);
            let returned = after(storage, key, ran);
            match returned {
                Ok(done) => Ok(done),
                Err(error) => Err(Failure::Fresh(error)),
            }
        },
    }
}

} // verus!
