//! Cursors: a position in a buffer, the number of elements left from there,
//! and the context object that travels with the parse.

use crate::extra::ExtraKey;
use crate::extra::HasExtraState;
use crate::key::CacheKey;
use crate::key::Position;
use vstd::prelude::*;

verus! {

/// What a cursor is, as a value.
pub struct CursorModel<X> {
    pub position: Position,
    pub remaining: usize,
    pub extra: X,
}

impl<X> CursorModel<X> {
    /// The end of the buffer is a position that can be written down.
    pub open spec fn wf(self) -> bool {
        self.position.offset + self.remaining <= usize::MAX
    }

    /// The cursor `count` elements further on, with the same context object.
    pub open spec fn advance(self, count: usize) -> CursorModel<X> {
        CursorModel {
            position: Position {
                buffer: self.position.buffer,
                offset: (self.position.offset + count) as usize,
            },
            remaining: (self.remaining - count) as usize,
            extra: self.extra,
        }
    }

    /// Whether `later` is this cursor advanced by some number of elements.
    pub open spec fn reaches(self, later: CursorModel<X>) -> bool {
        &&& self.position.buffer == later.position.buffer
        &&& self.position.offset <= later.position.offset
        &&& self.position.offset + self.remaining == later.position.offset + later.remaining
        &&& self.extra == later.extra
    }
}

/// A view over the remaining input: where it starts, how many elements it
/// holds, and the context object of the parse. It holds no input itself.
#[derive(Debug, PartialEq, Eq)]
pub struct Cursor<X> {
    position: Position,
    remaining: usize,
    extra: X,
}

impl<X> View for Cursor<X> {
    type V = CursorModel<X>;

    closed spec fn view(&self) -> CursorModel<X> {
        CursorModel { position: self.position, remaining: self.remaining, extra: self.extra }
    }
}

impl<X> Cursor<X> {
    #[verifier::type_invariant]
    spec fn end_fits(&self) -> bool {
        self.position.offset + self.remaining <= usize::MAX
    }

    /// The cursor at the start of buffer `buffer`, which holds `len` elements.
    pub fn start(buffer: u64, len: usize, extra: X) -> (cursor: Self)
        ensures
            cursor@ == (CursorModel { position: Position { buffer, offset: 0 }, remaining: len, extra }),
            cursor@.wf(),
    {
        Cursor { position: Position { buffer, offset: 0 }, remaining: len, extra }
    }

    /// The cursor `offset` elements into buffer `buffer` with `remaining`
    /// elements left, or `None` where the end of such a buffer is beyond what
    /// a `usize` can count.
    pub fn at(buffer: u64, offset: usize, remaining: usize, extra: X) -> (cursor: Option<Self>)
        ensures
            cursor is Some <==> offset + remaining <= usize::MAX,
            cursor matches Some(c) ==> c@ == (CursorModel {
                position: Position { buffer, offset },
                remaining,
                extra,
            }) && c@.wf(),
    {
        if remaining <= usize::MAX - offset {
            Some(Cursor { position: Position { buffer, offset }, remaining, extra })
        } else {
            None
        }
    }

    /// Where the cursor stands.
    pub fn position(&self) -> (position: Position)
        ensures
            position == self@.position,
            self@.wf(),
    {
        proof {
            use_type_invariant(self);
        }
        self.position
    }

    /// The number of elements from the cursor to the end of its buffer.
    pub fn remaining(&self) -> (remaining: usize)
        ensures
            remaining == self@.remaining,
            self@.wf(),
    {
        proof {
            use_type_invariant(self);
        }
        self.remaining
    }

    /// The context object that the cursor carries.
    pub fn extra(&self) -> (extra: &X)
        ensures
            *extra == self@.extra,
    {
        &self.extra
    }

    /// The cursor `count` elements further on. It keeps its context object.
    pub fn advance(self, count: usize) -> (later: Self)
        requires
            count <= self@.remaining,
        ensures
            later@ == self@.advance(count),
            later@.wf(),
            self@.reaches(later@),
    {
        proof {
            use_type_invariant(&self);
        }
        Cursor {
            position: Position {
                buffer: self.position.buffer,
                offset: self.position.offset + count,
            },
            remaining: self.remaining - count,
            extra: self.extra,
        }
    }

    /// The position identity of the cursor and the extra state that it
    /// reports, each read once.
    pub fn identity<U>(&self) -> (identity: (Position, U)) where Self: HasExtraState<U>
        ensures
            identity.0 == self@.position,
            self.reports(identity.1),
    {
        (self.position, self.get_extra_state())
    }

    /// The key under which rule `rule` is cached at this cursor: the rule,
    /// the cursor's position and the extra state it reports, with nothing
    /// normalized.
    pub fn key<U: ExtraKey>(&self, rule: &'static str) -> (key: CacheKey<U>) where
        Self: HasExtraState<U>,

        ensures
            key@.rule == rule@,
            key@.position == self@.position,
            self.reports(key@.extra),
    {
        let (position, extra) = self.identity();
        CacheKey::new(rule, position, extra)
    }
}

impl<X: Clone> Clone for Cursor<X> {
    /// A cursor at the same place, with a copy of the context object.
    fn clone(&self) -> (copy: Self)
        ensures
            copy@.position == self@.position,
            copy@.remaining == self@.remaining,
            cloned(self@.extra, copy@.extra),
    {
        proof {
            use_type_invariant(self);
        }
        Cursor { position: self.position, remaining: self.remaining, extra: self.extra.clone() }
    }
}

impl HasExtraState<()> for Cursor<()> {
    open spec fn reports(&self, extra: ()) -> bool {
        true
    }

    fn get_extra_state(&self) -> (extra: ()) {
        ()
    }
}

impl<T, V> HasExtraState<T> for Cursor<V> where V: HasExtraState<T> {
    open spec fn reports(&self, extra: T) -> bool {
        self@.extra.reports(extra)
    }

    fn get_extra_state(&self) -> (extra: T) {
        self.extra.get_extra_state()
    }
}

} // verus!
