//! Spans of `nom_locate` as cursors that report extra state.

use crate::extra::HasExtraState;
use nom_locate::LocatedSpan;
use vstd::prelude::*;

verus! {

#[verifier::external_type_specification]
#[verifier::external_body]
#[verifier::reject_recursive_types(T)]
#[verifier::reject_recursive_types(X)]
pub struct ExLocatedSpan<T, X>(nom_locate::LocatedSpan<T, X>);

/// Reads the public field `extra` of a `nom_locate::LocatedSpan`: the
/// context object that the span carries. The span is opaque here, so nothing
/// is claimed of what the field holds.
#[verifier::external_body]
fn span_extra<'a, T, X>(span: &'a LocatedSpan<T, X>) -> (extra: &'a X) {
    &span.extra
}

impl<T> HasExtraState<()> for LocatedSpan<T, ()> {
    fn get_extra_state(&self) -> (extra: ()) {
        ()
    }
}

impl<T, U, V> HasExtraState<T> for LocatedSpan<U, V> where V: HasExtraState<T> {
    /// The state is one that a context object of the span's kind reports.
    open spec fn reports(&self, extra: T) -> bool {
        exists|context: V| #[trigger] context.reports(extra)
    }

    fn get_extra_state(&self) -> (extra: T) {
        span_extra(self).get_extra_state()
    }
}

} // verus!
