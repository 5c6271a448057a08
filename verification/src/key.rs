//! Cache keys: which rule was invoked, where in the input, and under what
//! extra state.

use crate::extra::ExtraKey;
use crate::extra::HasExtraState;
use vstd::prelude::*;

verus! {

/// Where a cursor stands: the buffer it reads and the number of elements
/// before it. Two cursors denote the same remaining input exactly when their
/// positions are equal; what the buffer holds plays no part.
#[derive(Clone, Copy, Debug, PartialEq, Eq, Structural, Hash)]
pub struct Position {
    pub buffer: u64,
    pub offset: usize,
}

impl Position {
    /// The number of elements from `self` to `later`, where `later` lies in
    /// the same buffer and not before `self`.
    pub open spec fn span_to(self, later: Position) -> Option<usize> {
        if self.buffer == later.buffer && self.offset <= later.offset {
            Some((later.offset - self.offset) as usize)
        } else {
            None
        }
    }

    /// The number of elements between two positions of one buffer, `None`
    /// where `later` is in another buffer or lies before `self`.
    pub fn distance_to(&self, later: &Position) -> (distance: Option<usize>)
        ensures
            distance == self.span_to(*later),
    {
        if self.buffer == later.buffer && self.offset <= later.offset {
            Some(later.offset - self.offset)
        } else {
            None
        }
    }
}

/// What a cache key is, as a value: the rule's name as text, the position,
/// and the extra state.
pub struct KeyModel<U> {
    pub rule: Seq<char>,
    pub position: Position,
    pub extra: U,
}

/// The key under which one rule's outcome at one position is cached.
#[derive(Debug)]
pub struct CacheKey<U> {
    pub rule: &'static str,
    pub position: Position,
    pub extra: U,
}

impl<U> View for CacheKey<U> {
    type V = KeyModel<U>;

    open spec fn view(&self) -> KeyModel<U> {
        KeyModel { rule: self.rule@, position: self.position, extra: self.extra }
    }
}

/// Decides whether two rule names are the same text.
pub fn same_rule(a: &str, b: &str) -> (same: bool)
    ensures
        same == (a@ == b@),
{
    let x = a.as_bytes();
    let y = b.as_bytes();
    proof {
        vstd::utf8::encode_utf8_decode_utf8(a@);
        vstd::utf8::encode_utf8_decode_utf8(b@);
    }
    if x.len() != y.len() {
        return false;
    }
    let mut i: usize = 0;
    while i < x.len()
        invariant
            i <= x.len(),
            x.len() == y.len(),
            x@ == vstd::utf8::encode_utf8(a@),
            y@ == vstd::utf8::encode_utf8(b@),
            forall|j: int| 0 <= j < i ==> x@[j] == y@[j],
        decreases x.len() - i,
    {
        if x[i] != y[i] {
            return false;
        }
        i += 1;
    }
    assert(x@ =~= y@);
    true
}

impl<U: ExtraKey> CacheKey<U> {
    /// Forms the key from its three parts, unchanged.
    pub fn new(rule: &'static str, position: Position, extra: U) -> (key: Self)
        ensures
            key@ == (KeyModel { rule: rule@, position, extra }),
    {
        CacheKey { rule, position, extra }
    }

    /// The key of rule `rule` at position `position` for a cursor of any
    /// kind: the extra state is what the cursor reports, asked for once.
    pub fn of<C: HasExtraState<U>>(rule: &'static str, position: Position, cursor: &C) -> (key: Self)
        ensures
            key@.rule == rule@,
            key@.position == position,
            cursor.reports(key@.extra),
    {
        CacheKey { rule, position, extra: cursor.get_extra_state() }
    }

    /// Whether two keys are equal: the same rule, position and extra state.
    pub fn same(&self, other: &Self) -> (same: bool)
        ensures
            same == (self@ == other@),
    {
        self.position.buffer == other.position.buffer && self.position.offset
            == other.position.offset && self.extra.same(&other.extra) && same_rule(
            self.rule,
            other.rule,
        )
    }

    /// A second copy of the key.
    pub fn duplicate(&self) -> (copy: Self)
        ensures
            copy@ == self@,
    {
        CacheKey { rule: self.rule, position: self.position, extra: self.extra.duplicate() }
    }
}

} // verus!
