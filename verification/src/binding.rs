//! Where a widget's value, metadata and focus slot come from, and where a value write came from.

use vstd::prelude::*;

verus! {

/// Describes whether a value write came from user interaction or application code.
#[derive(Clone, Copy, Debug, PartialEq, Eq, Structural)]
pub enum ChangeOrigin {
    /// The user changed the value through a widget.
    User,
    /// Application code changed the value.
    Programmatic,
}

/// Where a resolved binding, metadata or focus slot came from.
///
/// A part that renders a reference to a control needs this: an id resolved from metadata nobody
/// else holds addresses no rendered element, so the reference would dangle.
#[derive(Clone, Copy, Debug, PartialEq, Eq, Structural)]
pub enum FieldMetaSource {
    /// An explicit prop or the Field Context. A control may hold the same value.
    Shared,
    /// The part's own standalone state, which by construction no control is reading.
    Standalone,
}

/// The value resolution picks: an explicit prop, else the Field Context's, else standalone state.
pub open spec fn resolution<T>(explicit: Option<T>, context: Option<T>, standalone: T) -> (T, FieldMetaSource) {
    match explicit {
        Some(value) => (value, FieldMetaSource::Shared),
        None => match context {
            Some(value) => (value, FieldMetaSource::Shared),
            None => (standalone, FieldMetaSource::Standalone),
        },
    }
}

/// Resolves a binding, metadata or focus slot using explicit prop, then Field Context, then
/// standalone-state precedence, and reports whether the result is shared.
///
/// Standalone state is always supplied, so the resolution order can change between renders
/// without changing which state a component allocates.
pub fn resolve_source<T>(explicit: Option<T>, context: Option<T>, standalone: T) -> (r: (T, FieldMetaSource))
    ensures
        r == resolution(explicit, context, standalone),
{
    match explicit {
        Some(value) => (value, FieldMetaSource::Shared),
        None => match context {
            Some(value) => (value, FieldMetaSource::Shared),
            None => (standalone, FieldMetaSource::Standalone),
        },
    }
}

/// Resolution precedence: an explicit value always wins; the Field Context's wins when there is no
/// explicit value; standalone state is used only when neither exists, and only then is the result
/// reported as standalone.
pub proof fn law_resolution_precedence<T>(explicit: Option<T>, context: Option<T>, standalone: T)
    ensures
        explicit is Some ==> resolution(explicit, context, standalone) == (explicit->0, FieldMetaSource::Shared),
        explicit is None && context is Some ==> resolution(explicit, context, standalone) == (context->0, FieldMetaSource::Shared),
        explicit is None && context is None ==> resolution(explicit, context, standalone) == (standalone, FieldMetaSource::Standalone),
        (resolution(explicit, context, standalone).1 == FieldMetaSource::Standalone) <==> (explicit is None && context is None),
{
}

} // verus!
