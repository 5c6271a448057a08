//! Extra state: what a cursor carries besides its position, and what of it
//! enters a cache key.

use vstd::prelude::*;

verus! {

/// A value that can stand in a cache key: it can be compared and duplicated,
/// and both agree with equality of values. The store finds its keys by
/// `same` and keeps a second copy of each key made by `duplicate`.
pub trait ExtraKey: Sized {
    /// Whether `self` and `other` are the same value.
    fn same(&self, other: &Self) -> (same: bool)
        ensures
            same == (*self == *other),
    ;

    /// A second copy of `self`.
    fn duplicate(&self) -> (copy: Self)
        ensures
            copy == *self,
    ;
}

impl ExtraKey for () {
    fn same(&self, other: &Self) -> (same: bool) {
        true
    }

    fn duplicate(&self) -> (copy: Self) {
        ()
    }
}

impl ExtraKey for bool {
    fn same(&self, other: &Self) -> (same: bool) {
        *self == *other
    }

    fn duplicate(&self) -> (copy: Self) {
        *self
    }
}

impl ExtraKey for char {
    fn same(&self, other: &Self) -> (same: bool) {
        *self == *other
    }

    fn duplicate(&self) -> (copy: Self) {
        *self
    }
}

impl ExtraKey for u8 {
    fn same(&self, other: &Self) -> (same: bool) {
        *self == *other
    }

    fn duplicate(&self) -> (copy: Self) {
        *self
    }
}

impl ExtraKey for u16 {
    fn same(&self, other: &Self) -> (same: bool) {
        *self == *other
    }

    fn duplicate(&self) -> (copy: Self) {
        *self
    }
}

impl ExtraKey for u32 {
    fn same(&self, other: &Self) -> (same: bool) {
        *self == *other
    }

    fn duplicate(&self) -> (copy: Self) {
        *self
    }
}

impl ExtraKey for u64 {
    fn same(&self, other: &Self) -> (same: bool) {
        *self == *other
    }

    fn duplicate(&self) -> (copy: Self) {
        *self
    }
}

impl ExtraKey for usize {
    fn same(&self, other: &Self) -> (same: bool) {
        *self == *other
    }

    fn duplicate(&self) -> (copy: Self) {
        *self
    }
}

impl ExtraKey for i32 {
    fn same(&self, other: &Self) -> (same: bool) {
        *self == *other
    }

    fn duplicate(&self) -> (copy: Self) {
        *self
    }
}

impl ExtraKey for i64 {
    fn same(&self, other: &Self) -> (same: bool) {
        *self == *other
    }

    fn duplicate(&self) -> (copy: Self) {
        *self
    }
}

impl<A: ExtraKey, B: ExtraKey> ExtraKey for (A, B) {
    fn same(&self, other: &Self) -> (same: bool) {
        self.0.same(&other.0) && self.1.same(&other.1)
    }

    fn duplicate(&self) -> (copy: Self) {
        (self.0.duplicate(), self.1.duplicate())
    }
}

impl<A: ExtraKey> ExtraKey for Option<A> {
    fn same(&self, other: &Self) -> (same: bool) {
        match (self, other) {
            (Some(a), Some(b)) => a.same(b),
            (None, None) => true,
            _ => false,
        }
    }

    fn duplicate(&self) -> (copy: Self) {
        match self {
            Some(a) => Some(a.duplicate()),
            None => None,
        }
    }
}

/// Implemented by cursors, and by the context objects that cursors carry, to
/// report the extra state under which a rule is invoked.
pub trait HasExtraState<T> {
    /// Whether `extra` is a state that this value may report. An
    /// implementation that does not say reports any state.
    open spec fn reports(&self, extra: T) -> bool {
        true
    }

    /// The extra state that enters the cache key.
    fn get_extra_state(&self) -> (extra: T)
        ensures
            self.reports(extra),
    ;
}

impl HasExtraState<()> for &str {
    fn get_extra_state(&self) -> (extra: ()) {
        ()
    }
}

impl HasExtraState<()> for &[u8] {
    fn get_extra_state(&self) -> (extra: ()) {
        ()
    }
}

} // verus!
