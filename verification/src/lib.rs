//! Packrat memoization for combinator parsers: a bounded cache of rule
//! outcomes keyed by rule, input position and extra state, together with the
//! before/after protocol that a memoized rule follows around its own body.
//!
//! A rule is looked up in a [`PackratStorage`] under the key of its name and
//! the [`Cursor`] it is invoked at. What the store holds is replayed; else
//! the rule's body runs and its outcome is recorded. [`packrat_parser`] does
//! all of this around a body; [`protocol::before`] and [`protocol::after`]
//! are its two halves for callers that run the body themselves.
//!
//! The store must be cleared before an input is parsed whose positions have
//! been in use for another input.

pub mod cursor;
pub mod extra;
pub mod key;
pub mod laws;
pub mod located;
pub mod protocol;
pub mod storage;
mod table;

pub use crate::cursor::Cursor;
pub use crate::extra::ExtraKey;
pub use crate::extra::HasExtraState;
pub use crate::key::CacheKey;
pub use crate::key::Position;
pub use crate::protocol::packrat_parser;
pub use crate::protocol::Failure;
pub use crate::protocol::Phase;
pub use crate::storage::PackratStorage;
