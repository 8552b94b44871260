//! A form-library-agnostic field convention: the verified model behind field-shaped widgets.
//!
//! Every value a widget reads or emits is modelled here as plain data: field metadata
//! ([`FieldMeta`]), the attribute lists a control derives from it ([`Attribute`]), the ids that
//! mounted label, description and error parts register, the focus request slot
//! ([`FocusRequestState`]), the precedence that resolves a widget's sources, and the state the
//! conformance probes in [`testing`] record.
//!
//! Attribute lists come out sorted by attribute name with one entry per name and namespace, the
//! shape a renderer's sorted merge-join diff of a spread list requires.

pub mod attribute;
pub mod binding;
pub mod focus;
pub mod meta;
pub mod options;
pub mod registry;
pub mod testing;
pub mod text;

pub use attribute::{merge_attributes, normalize_attributes, Attribute, AttributeValue, KeyOrder};
pub use binding::{resolve_source, ChangeOrigin, FieldMetaSource};
pub use focus::FocusRequestState;
pub use meta::{FieldMeta, FieldMetaChanges, FieldMetaIdRegistration, FieldMetaValues};
pub use options::{
    AttributeSurface, FieldControlOptions, FieldStateOverrides, FieldSurface, NameSurface,
    ValiditySurface,
};
pub use registry::{RegisteredId, RegisteredIdKind, RegisteredIds};
pub use text::{generated_id, join_ids};
