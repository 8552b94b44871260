//! Presentation metadata for one field-shaped value, and the attributes a control derives from it.

use vstd::prelude::*;

use crate::binding::FieldMetaSource;
use crate::attribute::{
    entries_named, law_normal_form_keeps_single_names, lemma_entries_named_concat,
    attribute_views, is_normal_form, law_one_entry_per_key, same_key, lemma_normal_form_views, normalize_attributes, Attribute,
    AttributeValue, AttributeValueView,
};
use crate::options::{
    default_control_options, AttributeSurface, FieldControlOptions, FieldControlOptionsView, FieldStateOverrides,
    NameSurface, ValiditySurface,
};
use crate::registry::{ids_of, law_release_undoes_register, RegisteredIdKind, RegisteredIds, RegisteredIdsView};
use crate::text::{
    clone_text_option, clone_texts, id_reference_list, join_ids, space_joined, text_option_view,
    text_options_equal, text_views, texts_equal,
};

verus! {

/// Initial presentation metadata for one field-shaped value.
///
/// `invalid: None` derives invalidity from whether `errors` is empty. Setting it to `Some` keeps
/// invalidity independently controlled by the metadata producer.
#[derive(Clone, Debug, PartialEq, Eq)]
pub struct FieldMetaValues {
    /// The rendered control's element id.
    pub id: Option<String>,
    /// The rendered control's name.
    pub name: Option<String>,
    /// Whether the field is required according to its producer.
    pub required: bool,
    /// Whether the field is disabled according to its producer.
    pub disabled: bool,
    /// An explicit invalid state, or `None` to derive it from `errors`.
    pub invalid: Option<bool>,
    /// Pre-rendered error text.
    pub errors: Vec<String>,
    /// Whether the field is touched according to its producer.
    pub touched: bool,
    /// Whether the field is dirty according to its producer.
    pub dirty: bool,
}

/// The mathematical value of a [`FieldMetaValues`].
pub struct FieldMetaValuesView {
    /// The rendered control's element id.
    pub id: Option<Seq<char>>,
    /// The rendered control's name.
    pub name: Option<Seq<char>>,
    /// Whether the field is required.
    pub required: bool,
    /// Whether the field is disabled.
    pub disabled: bool,
    /// An explicit invalid state.
    pub invalid: Option<bool>,
    /// Pre-rendered error text.
    pub errors: Seq<Seq<char>>,
    /// Whether the field is touched.
    pub touched: bool,
    /// Whether the field is dirty.
    pub dirty: bool,
}

impl View for FieldMetaValues {
    type V = FieldMetaValuesView;

    open spec fn view(&self) -> FieldMetaValuesView {
        FieldMetaValuesView {
            id: text_option_view(self.id),
            name: text_option_view(self.name),
            required: self.required,
            disabled: self.disabled,
            invalid: self.invalid,
            errors: text_views(self.errors@),
            touched: self.touched,
            dirty: self.dirty,
        }
    }
}

impl Default for FieldMetaValues {
    fn default() -> (r: Self)
        ensures
            r@.id is None,
            r@.name is None,
            !r@.required,
            !r@.disabled,
            r@.invalid is None,
            r@.errors.len() == 0,
            !r@.touched,
            !r@.dirty,
    {
        FieldMetaValues {
            id: None,
            name: None,
            required: false,
            disabled: false,
            invalid: None,
            errors: Vec::new(),
            touched: false,
            dirty: false,
        }
    }
}

/// Presentation metadata for one field-shaped value: the producer's values, the id generated for
/// the field when the producer supplies none, and the ids its mounted parts registered.
///
/// The flag meanings are producer-defined. This type does not track an initial value or classify
/// validity. Error strings are already formatted for display.
#[derive(Debug)]
pub struct FieldMeta {
    values: FieldMetaValues,
    fallback_id: String,
    registered_ids: RegisteredIds,
}

/// The mathematical value of a [`FieldMeta`].
pub struct FieldMetaView {
    /// The producer's values.
    pub values: FieldMetaValuesView,
    /// The id used when the producer supplies none.
    pub fallback_id: Seq<char>,
    /// The part ids registered with this field.
    pub registered: RegisteredIdsView,
}

impl View for FieldMeta {
    type V = FieldMetaView;

    closed spec fn view(&self) -> FieldMetaView {
        FieldMetaView {
            values: self.values@,
            fallback_id: self.fallback_id@,
            registered: self.registered_ids@,
        }
    }
}

impl FieldMetaView {
    /// The rendered control id: the producer's id, or the fallback when it supplies none.
    pub open spec fn control_id(self) -> Seq<char> {
        match self.values.id {
            Some(id) => id,
            None => self.fallback_id,
        }
    }

    /// Whether the field is invalid: an explicit state wins; otherwise any error makes it invalid.
    pub open spec fn is_invalid(self) -> bool {
        match self.values.invalid {
            Some(invalid) => invalid,
            None => self.values.errors.len() > 0,
        }
    }

    /// The same metadata with other producer values.
    pub open spec fn with_values(self, values: FieldMetaValuesView) -> FieldMetaView {
        FieldMetaView { values, ..self }
    }

    /// The same metadata with another registry state.
    pub open spec fn with_registered(self, registered: RegisteredIdsView) -> FieldMetaView {
        FieldMetaView { registered, ..self }
    }
}

/// A registered part id, released again with [`FieldMeta::unregister_id`].
#[derive(Clone, Copy, Debug, PartialEq, Eq)]
pub struct FieldMetaIdRegistration {
    token: u64,
}

impl FieldMetaIdRegistration {
    /// The token this registration was handed out with.
    pub closed spec fn spec_token(self) -> u64 {
        self.token
    }

    /// The token this registration was handed out with.
    pub fn token(&self) -> (r: u64)
        ensures
            r == self.spec_token(),
    {
        self.token
    }
}

/// Which producer values a [`FieldMeta::set_values`] call replaced with a different value.
#[derive(Clone, Copy, Debug, PartialEq, Eq)]
pub struct FieldMetaChanges {
    /// The id changed.
    pub id: bool,
    /// The name changed.
    pub name: bool,
    /// The required state changed.
    pub required: bool,
    /// The disabled state changed.
    pub disabled: bool,
    /// The explicit invalid state changed.
    pub invalid: bool,
    /// The error text changed.
    pub errors: bool,
    /// The touched state changed.
    pub touched: bool,
    /// The dirty state changed.
    pub dirty: bool,
}

/// A text attribute with no namespace.
pub open spec fn text_attribute(name: &'static str, text: Seq<char>) -> Attribute<AttributeValueView> {
    Attribute { name, value: AttributeValueView::Text(text), namespace: None, volatile: false }
}

/// A present boolean attribute with no namespace, such as native `required`.
pub open spec fn flag_attribute(name: &'static str) -> Attribute<AttributeValueView> {
    Attribute { name, value: AttributeValueView::Bool(true), namespace: None, volatile: false }
}

/// The text of a boolean, as `to_string` spells it.
pub open spec fn bool_text(value: bool) -> Seq<char> {
    if value {
        "true"@
    } else {
        "false"@
    }
}

/// A text attribute when the text is present, and nothing otherwise.
pub open spec fn optional_text_attributes(name: &'static str, text: Option<Seq<char>>) -> Seq<Attribute<AttributeValueView>> {
    match text {
        Some(t) => seq![text_attribute(name, t)],
        None => Seq::empty(),
    }
}

/// `name="true"` when `on`, and nothing otherwise: false and unset look the same to a selector.
pub open spec fn state_attributes(name: &'static str, on: bool) -> Seq<Attribute<AttributeValueView>> {
    if on {
        seq![text_attribute(name, "true"@)]
    } else {
        Seq::empty()
    }
}

/// One state in the spelling its surface calls for, and nothing when it is off.
pub open spec fn surface_state_attributes(
    surface: AttributeSurface,
    native: &'static str,
    aria: &'static str,
    on: bool,
) -> Seq<Attribute<AttributeValueView>> {
    match surface {
        AttributeSurface::Native => if on {
            seq![flag_attribute(native)]
        } else {
            Seq::empty()
        },
        AttributeSurface::Aria => state_attributes(aria, on),
        AttributeSurface::Omit => Seq::empty(),
    }
}

/// An override when present, the metadata's own state otherwise.
pub open spec fn resolve_flag(explicit: Option<bool>, own: bool) -> bool {
    match explicit {
        Some(value) => value,
        None => own,
    }
}

/// `aria-invalid`, and `aria-errormessage` with the first error id while invalid, when the element
/// exposes validity.
pub open spec fn validity_attributes(validity: ValiditySurface, invalid: bool, error_ids: Seq<Seq<char>>) -> Seq<Attribute<AttributeValueView>> {
    if validity == ValiditySurface::Aria {
        if invalid && error_ids.len() > 0 {
            seq![
                text_attribute("aria-invalid", bool_text(invalid)),
                text_attribute("aria-errormessage", error_ids[0]),
            ]
        } else {
            seq![text_attribute("aria-invalid", bool_text(invalid))]
        }
    } else {
        Seq::empty()
    }
}

/// The `data-*` state attributes, each present only while its state holds.
pub open spec fn data_state_attributes(required: bool, disabled: bool, invalid: bool, touched: bool, dirty: bool) -> Seq<Attribute<AttributeValueView>> {
    state_attributes("data-required", required) + state_attributes("data-disabled", disabled)
        + state_attributes("data-invalid", invalid) + state_attributes("data-touched", touched)
        + state_attributes("data-dirty", dirty)
}

/// The ids `aria-describedby` references: the descriptions, then every error while invalid.
pub open spec fn described_by_ids(registered: RegisteredIdsView, invalid: bool) -> Seq<Seq<char>> {
    if invalid {
        ids_of(registered.entries, RegisteredIdKind::Description) + ids_of(registered.entries, RegisteredIdKind::Error)
    } else {
        ids_of(registered.entries, RegisteredIdKind::Description)
    }
}

/// The attributes a control carries, before sorting: its id; its name where the surface allows
/// one; required, disabled and validity in their surface spellings; its label and description
/// references; and the `data-*` state attributes.
#[verifier::opaque]
pub open spec fn control_attributes(meta: FieldMetaView, options: FieldControlOptionsView) -> Seq<Attribute<AttributeValueView>> {
    let required = resolve_flag(options.state.required, meta.values.required);
    let disabled = resolve_flag(options.state.disabled, meta.values.disabled);
    let invalid = resolve_flag(options.state.invalid, meta.is_invalid());
    let id = match options.id {
        Some(id) => id,
        None => meta.control_id(),
    };
    let name = match options.name {
        Some(name) => Some(name),
        None => meta.values.name,
    };
    let name_attributes = if options.surface.name == NameSurface::Native {
        optional_text_attributes("name", name)
    } else {
        Seq::empty()
    };
    seq![text_attribute("id", id)] + name_attributes
        + surface_state_attributes(options.surface.required, "required", "aria-required", required)
        + surface_state_attributes(options.surface.disabled, "disabled", "aria-disabled", disabled)
        + validity_attributes(options.surface.validity, invalid, ids_of(meta.registered.entries, RegisteredIdKind::Error))
        + optional_text_attributes("aria-labelledby", id_reference_list(ids_of(meta.registered.entries, RegisteredIdKind::Label)))
        + optional_text_attributes("aria-describedby", id_reference_list(described_by_ids(meta.registered, invalid)))
        + data_state_attributes(required, disabled, invalid, meta.values.touched, meta.values.dirty)
}

/// Unfolds [`control_attributes`] into its parts, given the resolved state.
proof fn lemma_control_attributes_unfold(
    meta: FieldMetaView,
    options: FieldControlOptionsView,
    required: bool,
    disabled: bool,
    invalid: bool,
    id: Seq<char>,
    name_attributes: Seq<Attribute<AttributeValueView>>,
)
    requires
        required == resolve_flag(options.state.required, meta.values.required),
        disabled == resolve_flag(options.state.disabled, meta.values.disabled),
        invalid == resolve_flag(options.state.invalid, meta.is_invalid()),
        id == (match options.id {
            Some(id) => id,
            None => meta.control_id(),
        }),
        name_attributes == (if options.surface.name == NameSurface::Native {
            optional_text_attributes("name", match options.name {
                Some(name) => Some(name),
                None => meta.values.name,
            })
        } else {
            Seq::empty()
        }),
    ensures
        control_attributes(meta, options) == seq![text_attribute("id", id)] + name_attributes
            + surface_state_attributes(options.surface.required, "required", "aria-required", required)
            + surface_state_attributes(options.surface.disabled, "disabled", "aria-disabled", disabled)
            + validity_attributes(options.surface.validity, invalid, ids_of(meta.registered.entries, RegisteredIdKind::Error))
            + optional_text_attributes("aria-labelledby", id_reference_list(ids_of(meta.registered.entries, RegisteredIdKind::Label)))
            + optional_text_attributes("aria-describedby", id_reference_list(described_by_ids(meta.registered, invalid)))
            + data_state_attributes(required, disabled, invalid, meta.values.touched, meta.values.dirty),
{
    reveal(control_attributes);
}

/// The `data-*` state attributes a field part carries, before sorting.
pub open spec fn part_state_attributes(meta: FieldMetaView, overrides: FieldStateOverrides) -> Seq<Attribute<AttributeValueView>> {
    data_state_attributes(
        resolve_flag(overrides.required, meta.values.required),
        resolve_flag(overrides.disabled, meta.values.disabled),
        resolve_flag(overrides.invalid, meta.is_invalid()),
        meta.values.touched,
        meta.values.dirty,
    )
}

/// Pushes a text attribute.
fn push_text(attributes: &mut Vec<Attribute<AttributeValue>>, name: &'static str, value: String)
    ensures
        attribute_views(final(attributes)@) == attribute_views(old(attributes)@).push(text_attribute(name, value@)),
{
    attributes.push(Attribute::new(name, AttributeValue::Text(value), None, false));
    proof {
        assert(attribute_views(final(attributes)@) =~= attribute_views(old(attributes)@).push(text_attribute(name, value@)));
    }
}

/// Pushes a text attribute when the text is present.
fn push_optional_text(attributes: &mut Vec<Attribute<AttributeValue>>, name: &'static str, value: Option<String>)
    ensures
        attribute_views(final(attributes)@) == attribute_views(old(attributes)@) + optional_text_attributes(
            name,
            text_option_view(value),
        ),
{
    match value {
        Some(text) => push_text(attributes, name, text),
        None => {
            proof {
                assert(attribute_views(old(attributes)@) + Seq::<Attribute<AttributeValueView>>::empty()
                    =~= attribute_views(old(attributes)@));
            }
        },
    }
}

/// Pushes `name="true"` when `value`, and nothing otherwise.
fn push_state(attributes: &mut Vec<Attribute<AttributeValue>>, name: &'static str, value: bool)
    ensures
        attribute_views(final(attributes)@) == attribute_views(old(attributes)@) + state_attributes(name, value),
{
    if value {
        push_text(attributes, name, "true".to_owned());
    } else {
        proof {
            assert(attribute_views(old(attributes)@) + Seq::<Attribute<AttributeValueView>>::empty()
                =~= attribute_views(old(attributes)@));
        }
    }
}

/// Pushes the `data-*` state attributes.
fn push_data_states(
    attributes: &mut Vec<Attribute<AttributeValue>>,
    required: bool,
    disabled: bool,
    invalid: bool,
    touched: bool,
    dirty: bool,
)
    ensures
        attribute_views(final(attributes)@) == attribute_views(old(attributes)@) + data_state_attributes(
            required,
            disabled,
            invalid,
            touched,
            dirty,
        ),
{
    let ghost start = attribute_views(attributes@);
    push_state(attributes, "data-required", required);
    push_state(attributes, "data-disabled", disabled);
    push_state(attributes, "data-invalid", invalid);
    push_state(attributes, "data-touched", touched);
    push_state(attributes, "data-dirty", dirty);
    proof {
        assert(attribute_views(attributes@) =~= start + data_state_attributes(required, disabled, invalid, touched, dirty));
    }
}

/// Pushes `aria-invalid`, and `aria-errormessage` while invalid, when the element exposes validity.
fn push_validity(
    attributes: &mut Vec<Attribute<AttributeValue>>,
    validity: ValiditySurface,
    invalid: bool,
    error_ids: &Vec<String>,
)
    ensures
        attribute_views(final(attributes)@) == attribute_views(old(attributes)@) + validity_attributes(
            validity,
            invalid,
            text_views(error_ids@),
        ),
{
    let ghost start = attribute_views(attributes@);
    if validity == ValiditySurface::Aria {
        let invalid_text = if invalid {
            "true".to_owned()
        } else {
            "false".to_owned()
        };
        push_text(attributes, "aria-invalid", invalid_text);
        if invalid && error_ids.len() > 0 {
            push_text(attributes, "aria-errormessage", error_ids[0].clone());
        }
    }
    proof {
        assert(attribute_views(attributes@) =~= start + validity_attributes(validity, invalid, text_views(error_ids@)));
    }
}

/// Pushes one state in the spelling its surface calls for, and nothing when `value` is false.
fn push_surface_state(
    attributes: &mut Vec<Attribute<AttributeValue>>,
    surface: AttributeSurface,
    native: &'static str,
    aria: &'static str,
    value: bool,
)
    ensures
        attribute_views(final(attributes)@) == attribute_views(old(attributes)@) + surface_state_attributes(
            surface,
            native,
            aria,
            value,
        ),
{
    match surface {
        AttributeSurface::Native => {
            if value {
                attributes.push(Attribute::new(native, AttributeValue::Bool(true), None, false));
                proof {
                    assert(attribute_views(final(attributes)@) =~= attribute_views(old(attributes)@) + seq![flag_attribute(native)]);
                }
            } else {
                proof {
                    assert(attribute_views(old(attributes)@) + Seq::<Attribute<AttributeValueView>>::empty()
                        =~= attribute_views(old(attributes)@));
                }
            }
        },
        AttributeSurface::Aria => push_state(attributes, aria, value),
        AttributeSurface::Omit => {
            proof {
                assert(attribute_views(old(attributes)@) + Seq::<Attribute<AttributeValueView>>::empty()
                    =~= attribute_views(old(attributes)@));
            }
        },
    }
}


impl FieldMeta {
    /// Creates metadata from a producer's initial values and the id to fall back on when the
    /// producer supplies none. No part ids are registered yet.
    pub fn new(initial: FieldMetaValues, fallback_id: String) -> (r: Self)
        ensures
            r@.values == initial@,
            r@.fallback_id == fallback_id@,
            r@.registered.next_token == 0,
            r@.registered.entries.len() == 0,
    {
        FieldMeta { values: initial, fallback_id, registered_ids: RegisteredIds::new() }
    }

    /// The producer values this metadata holds.
    pub fn values(&self) -> (r: &FieldMetaValues)
        ensures
            r@ == self@.values,
    {
        &self.values
    }

    /// The part ids registered with this metadata.
    pub fn registered_ids(&self) -> (r: &RegisteredIds)
        ensures
            r@ == self@.registered,
            r@.wf(),
    {
        self.registered_ids.well_formed();
        &self.registered_ids
    }

    /// The part ids registered with this metadata are well formed, so the registry's laws apply
    /// to them.
    pub fn registered_ids_are_well_formed(&self)
        ensures
            self@.registered.wf(),
    {
        self.registered_ids.well_formed();
    }

    /// Returns the rendered control id.
    ///
    /// Metadata always carries an id: when its producer supplies none, the fallback id applies, so
    /// a label's `for` and every ARIA reference resolve instead of leaving the control unnamed.
    pub fn id(&self) -> (r: String)
        ensures
            r@ == self@.control_id(),
    {
        match &self.values.id {
            Some(id) => id.clone(),
            None => self.fallback_id.clone(),
        }
    }

    /// Replaces the rendered control id, or restores the fallback with `None`.
    pub fn set_id(&mut self, id: Option<String>)
        ensures
            final(self)@ == old(self)@.with_values(
                FieldMetaValuesView { id: text_option_view(id), ..old(self)@.values },
            ),
    {
        self.values.id = id;
    }

    /// Returns the rendered control name.
    pub fn name(&self) -> (r: Option<String>)
        ensures
            text_option_view(r) == self@.values.name,
    {
        clone_text_option(&self.values.name)
    }

    /// Replaces the rendered control name.
    pub fn set_name(&mut self, name: Option<String>)
        ensures
            final(self)@ == old(self)@.with_values(
                FieldMetaValuesView { name: text_option_view(name), ..old(self)@.values },
            ),
    {
        self.values.name = name;
    }

    /// Returns whether the field is required.
    pub fn required(&self) -> (r: bool)
        ensures
            r == self@.values.required,
    {
        self.values.required
    }

    /// Replaces the producer-defined required state.
    pub fn set_required(&mut self, required: bool)
        ensures
            final(self)@ == old(self)@.with_values(FieldMetaValuesView { required, ..old(self)@.values }),
    {
        self.values.required = required;
    }

    /// Returns whether the field is disabled.
    pub fn disabled(&self) -> (r: bool)
        ensures
            r == self@.values.disabled,
    {
        self.values.disabled
    }

    /// Replaces the producer-defined disabled state.
    pub fn set_disabled(&mut self, disabled: bool)
        ensures
            final(self)@ == old(self)@.with_values(FieldMetaValuesView { disabled, ..old(self)@.values }),
    {
        self.values.disabled = disabled;
    }

    /// Returns whether the field is invalid.
    ///
    /// An explicit invalid state wins; otherwise invalidity is derived from whether errors exist.
    pub fn invalid(&self) -> (r: bool)
        ensures
            r == self@.is_invalid(),
    {
        match self.values.invalid {
            Some(invalid) => invalid,
            None => self.values.errors.len() > 0,
        }
    }

    /// Sets an explicit invalid state, or restores error-derived invalidity with `None`.
    pub fn set_invalid(&mut self, invalid: Option<bool>)
        ensures
            final(self)@ == old(self)@.with_values(FieldMetaValuesView { invalid, ..old(self)@.values }),
    {
        self.values.invalid = invalid;
    }

    /// Returns the pre-rendered error text.
    pub fn errors(&self) -> (r: Vec<String>)
        ensures
            text_views(r@) == self@.values.errors,
    {
        clone_texts(&self.values.errors)
    }

    /// Replaces the pre-rendered error text.
    pub fn set_errors(&mut self, errors: Vec<String>)
        ensures
            final(self)@ == old(self)@.with_values(
                FieldMetaValuesView { errors: text_views(errors@), ..old(self)@.values },
            ),
    {
        self.values.errors = errors;
    }

    /// Returns whether the field is touched.
    pub fn touched(&self) -> (r: bool)
        ensures
            r == self@.values.touched,
    {
        self.values.touched
    }

    /// Replaces the producer-defined touched state.
    pub fn set_touched(&mut self, touched: bool)
        ensures
            final(self)@ == old(self)@.with_values(FieldMetaValuesView { touched, ..old(self)@.values }),
    {
        self.values.touched = touched;
    }

    /// Returns whether the field is dirty.
    pub fn dirty(&self) -> (r: bool)
        ensures
            r == self@.values.dirty,
    {
        self.values.dirty
    }

    /// Replaces the producer-defined dirty state.
    pub fn set_dirty(&mut self, dirty: bool)
        ensures
            final(self)@ == old(self)@.with_values(FieldMetaValuesView { dirty, ..old(self)@.values }),
    {
        self.values.dirty = dirty;
    }

    /// Whether another part id can be registered: registration tokens are never reused.
    pub fn can_register_id(&self) -> (r: bool)
        ensures
            r == (self@.registered.next_token < u64::MAX),
    {
        self.registered_ids.has_capacity()
    }

    fn register_id(&mut self, kind: RegisteredIdKind, id: String) -> (r: FieldMetaIdRegistration)
        requires
            old(self)@.registered.next_token < u64::MAX,
        ensures
            r.spec_token() == old(self)@.registered.next_token,
            final(self)@ == old(self)@.with_registered(old(self)@.registered.registered(kind, id@)),
    {
        let token = self.registered_ids.insert(kind, id);
        FieldMetaIdRegistration { token }
    }

    /// Registers a label element id until the registration is released.
    ///
    /// Registered label ids reach the control through `aria-labelledby`, the only naming path
    /// available to a control rooted on an element `<label for>` cannot address.
    #[must_use]
    pub fn register_label_id(&mut self, id: String) -> (r: FieldMetaIdRegistration)
        requires
            old(self)@.registered.next_token < u64::MAX,
        ensures
            r.spec_token() == old(self)@.registered.next_token,
            final(self)@ == old(self)@.with_registered(
                old(self)@.registered.registered(RegisteredIdKind::Label, id@),
            ),
    {
        self.register_id(RegisteredIdKind::Label, id)
    }

    /// Registers a description element id until the registration is released.
    #[must_use]
    pub fn register_description_id(&mut self, id: String) -> (r: FieldMetaIdRegistration)
        requires
            old(self)@.registered.next_token < u64::MAX,
        ensures
            r.spec_token() == old(self)@.registered.next_token,
            final(self)@ == old(self)@.with_registered(
                old(self)@.registered.registered(RegisteredIdKind::Description, id@),
            ),
    {
        self.register_id(RegisteredIdKind::Description, id)
    }

    /// Registers an error element id until the registration is released.
    #[must_use]
    pub fn register_error_id(&mut self, id: String) -> (r: FieldMetaIdRegistration)
        requires
            old(self)@.registered.next_token < u64::MAX,
        ensures
            r.spec_token() == old(self)@.registered.next_token,
            final(self)@ == old(self)@.with_registered(
                old(self)@.registered.registered(RegisteredIdKind::Error, id@),
            ),
    {
        self.register_id(RegisteredIdKind::Error, id)
    }

    /// Releases a part id registration; the ids other parts registered keep their order.
    pub fn unregister_id(&mut self, registration: &FieldMetaIdRegistration)
        ensures
            final(self)@ == old(self)@.with_registered(
                old(self)@.registered.released(registration.spec_token()),
            ),
    {
        self.registered_ids.remove(registration.token);
    }

    /// Returns attributes for a rendered control using the metadata's own state, on a native
    /// element.
    pub fn attributes(&self) -> (r: Vec<Attribute<AttributeValue>>)
        ensures
            is_normal_form(attribute_views(r@), control_attributes(self@, default_control_options())),
    {
        self.attributes_for(&FieldControlOptions::new())
    }

    /// Returns attributes for a rendered control, resolving explicit overrides and the element's
    /// attribute surface.
    ///
    /// Overrides are resolved first and only the resolved state is emitted, so the caller never
    /// filters the result and no attribute appears twice. The result is sorted by attribute name
    /// and carries one entry per name and namespace.
    ///
    /// - `id`, always, from the override or the metadata.
    /// - `name`, when the surface carries a name and a name resolves.
    /// - `required` or `aria-required="true"`, when required, per the surface.
    /// - `disabled` or `aria-disabled="true"`, when disabled, per the surface.
    /// - `aria-invalid`, and `aria-errormessage` with the first error id while invalid, when the
    ///   surface exposes validity. Every error id also reaches `aria-describedby` while invalid.
    /// - `aria-labelledby` and `aria-describedby`, from the registered part ids.
    /// - `data-required`, `data-disabled`, `data-invalid`, `data-touched`, and `data-dirty`, from
    ///   the resolved state, absent when false and independent of the surface.
    pub fn attributes_for(&self, options: &FieldControlOptions) -> (r: Vec<Attribute<AttributeValue>>)
        ensures
            is_normal_form(attribute_views(r@), control_attributes(self@, options@)),
    {
        let mut attributes = self.control_attribute_list(options);
        let ghost raw = attributes@;
        normalize_attributes(&mut attributes);
        proof {
            lemma_normal_form_views(attributes@, raw);
        }
        attributes
    }

    /// The attributes of [`FieldMeta::attributes_for`], in emission order and not yet sorted.
    #[verifier::rlimit(30)]
    fn control_attribute_list(&self, options: &FieldControlOptions) -> (r: Vec<Attribute<AttributeValue>>)
        ensures
            attribute_views(r@) == control_attributes(self@, options@),
    {
        let state = options.state_overrides();
        let required = match state.required {
            Some(value) => value,
            None => self.values.required,
        };
        let disabled = match state.disabled {
            Some(value) => value,
            None => self.values.disabled,
        };
        let invalid = match state.invalid {
            Some(value) => value,
            None => self.invalid(),
        };
        let id = match options.id_override() {
            Some(id) => id.clone(),
            None => self.id(),
        };
        let name = match options.name_override() {
            Some(name) => Some(name.clone()),
            None => clone_text_option(&self.values.name),
        };
        let error_ids = self.registered_ids.ids(RegisteredIdKind::Error);
        let mut described_by = self.registered_ids.ids(RegisteredIdKind::Description);
        if invalid {
            let mut errors_described = clone_texts(&error_ids);
            described_by.append(&mut errors_described);
        }
        let label_ids = self.registered_ids.ids(RegisteredIdKind::Label);
        let surface = options.attribute_surface();
        let ghost meta = self@;
        let ghost opts = options@;
        proof {
            assert(text_views(described_by@) =~= described_by_ids(meta.registered, invalid));
        }
        let ghost id_view = id@;
        let ghost name_view = text_option_view(name);
        let mut attributes: Vec<Attribute<AttributeValue>> = Vec::new();
        push_text(&mut attributes, "id", id);
        let ghost a0 = attribute_views(attributes@);
        proof {
            assert(a0 =~= seq![text_attribute("id", id_view)]);
        }
        let ghost name_part = if surface.name == NameSurface::Native {
            optional_text_attributes("name", name_view)
        } else {
            Seq::<Attribute<AttributeValueView>>::empty()
        };
        if surface.name == NameSurface::Native {
            push_optional_text(&mut attributes, "name", name);
        }
        let ghost a1 = attribute_views(attributes@);
        proof {
            assert(a1 =~= a0 + name_part);
        }
        push_surface_state(&mut attributes, surface.required, "required", "aria-required", required);
        let ghost a2 = attribute_views(attributes@);
        push_surface_state(&mut attributes, surface.disabled, "disabled", "aria-disabled", disabled);
        let ghost a3 = attribute_views(attributes@);
        push_validity(&mut attributes, surface.validity, invalid, &error_ids);
        let ghost a4 = attribute_views(attributes@);
        push_optional_text(&mut attributes, "aria-labelledby", join_ids(&label_ids));
        let ghost a5 = attribute_views(attributes@);
        push_optional_text(&mut attributes, "aria-describedby", join_ids(&described_by));
        let ghost a6 = attribute_views(attributes@);
        push_data_states(&mut attributes, required, disabled, invalid, self.values.touched, self.values.dirty);
        proof {
            lemma_control_attributes_unfold(meta, opts, required, disabled, invalid, id_view, name_part);
            assert(a2 == a1 + surface_state_attributes(opts.surface.required, "required", "aria-required", required));
            assert(a3 == a2 + surface_state_attributes(opts.surface.disabled, "disabled", "aria-disabled", disabled));
            assert(a4 == a3 + validity_attributes(opts.surface.validity, invalid, ids_of(meta.registered.entries, RegisteredIdKind::Error)));
            assert(a5 == a4 + optional_text_attributes("aria-labelledby", id_reference_list(ids_of(meta.registered.entries, RegisteredIdKind::Label))));
            assert(a6 == a5 + optional_text_attributes("aria-describedby", id_reference_list(described_by_ids(meta.registered, invalid))));
        }
        attributes
    }

    /// Returns the `data-*` state attributes a field part (label, description or error) carries,
    /// resolving the part's explicit overrides first. The result is sorted by attribute name.
    pub fn part_state_attributes(&self, overrides: FieldStateOverrides) -> (r: Vec<Attribute<AttributeValue>>)
        ensures
            is_normal_form(attribute_views(r@), part_state_attributes(self@, overrides)),
    {
        let required = match overrides.required {
            Some(value) => value,
            None => self.values.required,
        };
        let disabled = match overrides.disabled {
            Some(value) => value,
            None => self.values.disabled,
        };
        let invalid = match overrides.invalid {
            Some(value) => value,
            None => self.invalid(),
        };
        let mut attributes: Vec<Attribute<AttributeValue>> = Vec::new();
        push_data_states(&mut attributes, required, disabled, invalid, self.values.touched, self.values.dirty);
        proof {
            assert(attribute_views(attributes@) =~= part_state_attributes(self@, overrides));
        }
        let ghost raw = attributes@;
        normalize_attributes(&mut attributes);
        proof {
            lemma_normal_form_views(attributes@, raw);
        }
        attributes
    }

    /// Returns the attributes a field part spreads: its `data-*` state attributes (after the
    /// part's explicit overrides), then the attributes the part forwards, sorted by name with one
    /// entry per name and namespace. Appended last, a forwarded attribute wins its name.
    pub fn part_attributes(
        &self,
        overrides: FieldStateOverrides,
        forwarded: Vec<Attribute<AttributeValue>>,
    ) -> (r: Vec<Attribute<AttributeValue>>)
        ensures
            is_normal_form(
                attribute_views(r@),
                part_state_attributes(self@, overrides) + attribute_views(forwarded@),
            ),
    {
        let required = match overrides.required {
            Some(value) => value,
            None => self.values.required,
        };
        let disabled = match overrides.disabled {
            Some(value) => value,
            None => self.values.disabled,
        };
        let invalid = match overrides.invalid {
            Some(value) => value,
            None => self.invalid(),
        };
        let mut attributes: Vec<Attribute<AttributeValue>> = Vec::new();
        push_data_states(&mut attributes, required, disabled, invalid, self.values.touched, self.values.dirty);
        let ghost own = attributes@;
        let ghost extra = forwarded@;
        let mut forwarded = forwarded;
        attributes.append(&mut forwarded);
        proof {
            assert(attributes@ =~= own + extra);
            assert(attribute_views(attributes@) =~= attribute_views(own) + attribute_views(extra));
            assert(attribute_views(own) =~= part_state_attributes(self@, overrides));
        }
        let ghost raw = attributes@;
        normalize_attributes(&mut attributes);
        proof {
            lemma_normal_form_views(attributes@, raw);
        }
        attributes
    }

    /// The error text an error part shows: every error while the field is invalid (after the
    /// part's explicit invalid state), and none otherwise. The part stays mounted either way.
    pub fn error_messages(&self, invalid: Option<bool>) -> (r: Vec<String>)
        ensures
            text_views(r@) == (if resolve_flag(invalid, self@.is_invalid()) {
                self@.values.errors
            } else {
                Seq::empty()
            }),
    {
        let shown = match invalid {
            Some(value) => value,
            None => self.invalid(),
        };
        if shown {
            self.errors()
        } else {
            let none: Vec<String> = Vec::new();
            proof {
                assert(text_views(none@) =~= Seq::<Seq<char>>::empty());
            }
            none
        }
    }

    /// The control id a label's `for` points at: the metadata's control id when the metadata is
    /// shared with a control, and nothing when the label resolved standalone metadata that no
    /// rendered control holds, since `for` would then dangle.
    pub fn label_target(&self, source: FieldMetaSource) -> (r: Option<String>)
        ensures
            text_option_view(r) == (if source == FieldMetaSource::Shared {
                Some(self@.control_id())
            } else {
                None
            }),
    {
        match source {
            FieldMetaSource::Shared => Some(self.id()),
            FieldMetaSource::Standalone => None,
        }
    }

    /// Replaces producer-owned metadata values without disturbing registered part ids, and
    /// reports which values changed.
    pub fn set_values(&mut self, values: FieldMetaValues) -> (changes: FieldMetaChanges)
        ensures
            final(self)@ == old(self)@.with_values(values@),
            changes.id == (old(self)@.values.id != values@.id),
            changes.name == (old(self)@.values.name != values@.name),
            changes.required == (old(self)@.values.required != values@.required),
            changes.disabled == (old(self)@.values.disabled != values@.disabled),
            changes.invalid == (old(self)@.values.invalid != values@.invalid),
            changes.errors == (old(self)@.values.errors != values@.errors),
            changes.touched == (old(self)@.values.touched != values@.touched),
            changes.dirty == (old(self)@.values.dirty != values@.dirty),
    {
        let changes = FieldMetaChanges {
            id: !text_options_equal(&self.values.id, &values.id),
            name: !text_options_equal(&self.values.name, &values.name),
            required: self.values.required != values.required,
            disabled: self.values.disabled != values.disabled,
            invalid: self.values.invalid != values.invalid,
            errors: !texts_equal(&self.values.errors, &values.errors),
            touched: self.values.touched != values.touched,
            dirty: self.values.dirty != values.dirty,
        };
        self.values = values;
        changes
    }
}


/// A part's id reaches the control while the part is mounted and vanishes when it drops: after a
/// registration is released, the control's attributes are exactly what they were before it.
pub proof fn law_released_part_leaves_no_trace(
    meta: FieldMetaView,
    options: FieldControlOptionsView,
    kind: RegisteredIdKind,
    id: Seq<char>,
)
    requires
        meta.registered.wf(),
        meta.registered.next_token < u64::MAX,
    ensures
        control_attributes(
            meta.with_registered(meta.registered.registered(kind, id).released(meta.registered.next_token)),
            options,
        ) == control_attributes(meta, options),
{
    law_release_undoes_register(meta.registered, kind, id);
    let after = meta.registered.registered(kind, id).released(meta.registered.next_token);
    lemma_control_attributes_read_entries_only(meta, after, options);
}

/// The control's attributes depend on the registry only through its entries.
proof fn lemma_control_attributes_read_entries_only(meta: FieldMetaView, registered: RegisteredIdsView, options: FieldControlOptionsView)
    requires
        registered.entries == meta.registered.entries,
    ensures
        control_attributes(meta.with_registered(registered), options) == control_attributes(meta, options),
{
    let other = meta.with_registered(registered);
    let invalid = resolve_flag(options.state.invalid, meta.is_invalid());
    assert(described_by_ids(other.registered, invalid) == described_by_ids(meta.registered, invalid));
    lemma_control_attributes_unfold(
        meta,
        options,
        resolve_flag(options.state.required, meta.values.required),
        resolve_flag(options.state.disabled, meta.values.disabled),
        invalid,
        match options.id {
            Some(id) => id,
            None => meta.control_id(),
        },
        if options.surface.name == NameSurface::Native {
            optional_text_attributes("name", match options.name {
                Some(name) => Some(name),
                None => meta.values.name,
            })
        } else {
            Seq::empty()
        },
    );
    lemma_control_attributes_unfold(
        other,
        options,
        resolve_flag(options.state.required, meta.values.required),
        resolve_flag(options.state.disabled, meta.values.disabled),
        invalid,
        match options.id {
            Some(id) => id,
            None => meta.control_id(),
        },
        if options.surface.name == NameSurface::Native {
            optional_text_attributes("name", match options.name {
                Some(name) => Some(name),
                None => meta.values.name,
            })
        } else {
            Seq::empty()
        },
    );
}

/// A mounted description's id is the last id `aria-describedby` lists among the descriptions, and
/// a mounted error's id is listed after every description while the control is invalid.
pub proof fn law_mounted_part_is_referenced(meta: FieldMetaView, kind: RegisteredIdKind, id: Seq<char>, invalid: bool)
    ensures
        kind == RegisteredIdKind::Description ==> described_by_ids(meta.registered.registered(kind, id), invalid)
            == (if invalid {
                ids_of(meta.registered.entries, RegisteredIdKind::Description).push(id) + ids_of(meta.registered.entries, RegisteredIdKind::Error)
            } else {
                ids_of(meta.registered.entries, RegisteredIdKind::Description).push(id)
            }),
        kind == RegisteredIdKind::Error && invalid ==> described_by_ids(meta.registered.registered(kind, id), invalid)
            == described_by_ids(meta.registered, invalid).push(id),
{
    let grown = meta.registered.registered(kind, id).entries;
    assert(grown.drop_last() =~= meta.registered.entries);
    if kind == RegisteredIdKind::Error && invalid {
        assert(ids_of(meta.registered.entries, RegisteredIdKind::Description) + ids_of(meta.registered.entries, RegisteredIdKind::Error).push(id)
            =~= (ids_of(meta.registered.entries, RegisteredIdKind::Description) + ids_of(meta.registered.entries, RegisteredIdKind::Error)).push(id));
    }
}

/// The attributes of a control hold one entry per attribute name and namespace, so an overridden
/// state is never emitted next to the metadata's own.
pub proof fn law_control_attributes_one_entry_per_name(
    result: Seq<Attribute<AttributeValueView>>,
    meta: FieldMetaView,
    options: FieldControlOptionsView,
    i: int,
    j: int,
)
    requires
        is_normal_form(result, control_attributes(meta, options)),
        0 <= i < j < result.len(),
    ensures
        !same_key(result[i], result[j]),
{
    law_one_entry_per_key(result, control_attributes(meta, options), i, j);
}

/// The control id `attributes_for` emits: the override, else the metadata's control id.
pub open spec fn resolved_control_id(meta: FieldMetaView, options: FieldControlOptionsView) -> Seq<char> {
    match options.id {
        Some(id) => id,
        None => meta.control_id(),
    }
}

/// The control name `attributes_for` resolves: the override, else the metadata's name.
pub open spec fn resolved_control_name(meta: FieldMetaView, options: FieldControlOptionsView) -> Option<Seq<char>> {
    match options.name {
        Some(name) => Some(name),
        None => meta.values.name,
    }
}

/// The attribute `a` when `on`, and nothing otherwise.
#[verifier::opaque]
pub open spec fn present_when(on: bool, a: Attribute<AttributeValueView>) -> Seq<Attribute<AttributeValueView>> {
    if on {
        seq![a]
    } else {
        Seq::empty()
    }
}

/// The entries named `name` in the concatenation of a control's parts, part by part.
proof fn lemma_entries_named_of_parts(
    p0: Seq<Attribute<AttributeValueView>>,
    p1: Seq<Attribute<AttributeValueView>>,
    p2: Seq<Attribute<AttributeValueView>>,
    p3: Seq<Attribute<AttributeValueView>>,
    p4: Seq<Attribute<AttributeValueView>>,
    p5: Seq<Attribute<AttributeValueView>>,
    p6: Seq<Attribute<AttributeValueView>>,
    p7: Seq<Attribute<AttributeValueView>>,
    p8: Seq<Attribute<AttributeValueView>>,
    p9: Seq<Attribute<AttributeValueView>>,
    p10: Seq<Attribute<AttributeValueView>>,
    p11: Seq<Attribute<AttributeValueView>>,
    name: Seq<char>,
)
    ensures
        entries_named(p0 + p1 + p2 + p3 + p4 + p5 + p6 + (p7 + p8 + p9 + p10 + p11), name)
            == entries_named(p0, name) + entries_named(p1, name) + entries_named(p2, name)
            + entries_named(p3, name) + entries_named(p4, name) + entries_named(p5, name)
            + entries_named(p6, name) + entries_named(p7, name) + entries_named(p8, name)
            + entries_named(p9, name) + entries_named(p10, name) + entries_named(p11, name),
{
    let s1 = p0 + p1;
    let s2 = s1 + p2;
    let s3 = s2 + p3;
    let s4 = s3 + p4;
    let s5 = s4 + p5;
    let s6 = s5 + p6;
    let d1 = p7 + p8;
    let d2 = d1 + p9;
    let d3 = d2 + p10;
    let d4 = d3 + p11;
    lemma_entries_named_concat(p0, p1, name);
    lemma_entries_named_concat(s1, p2, name);
    lemma_entries_named_concat(s2, p3, name);
    lemma_entries_named_concat(s3, p4, name);
    lemma_entries_named_concat(s4, p5, name);
    lemma_entries_named_concat(s5, p6, name);
    lemma_entries_named_concat(p7, p8, name);
    lemma_entries_named_concat(d1, p9, name);
    lemma_entries_named_concat(d2, p10, name);
    lemma_entries_named_concat(d3, p11, name);
    lemma_entries_named_concat(s6, d4, name);
    let e7 = entries_named(p7, name);
    let e8 = entries_named(p8, name);
    let e9 = entries_named(p9, name);
    let e10 = entries_named(p10, name);
    let e11 = entries_named(p11, name);
    assert(entries_named(s6, name) + (e7 + e8 + e9 + e10 + e11)
        =~= entries_named(s6, name) + e7 + e8 + e9 + e10 + e11);
}

/// The entries named `name` of a list that holds `a` when `on`.
proof fn lemma_entries_named_present(on: bool, a: Attribute<AttributeValueView>, name: Seq<char>)
    ensures
        entries_named(present_when(on, a), name) == present_when(on && a.name@ == name, a),
{
    reveal(present_when);
    reveal_with_fuel(entries_named, 2);
    assert(seq![a].drop_last() =~= Seq::<Attribute<AttributeValueView>>::empty());
}

/// The entries named `name` of a list that holds `a` when `on` and then `b` when `also`.
proof fn lemma_entries_named_pair(
    on: bool,
    a: Attribute<AttributeValueView>,
    also: bool,
    b: Attribute<AttributeValueView>,
    name: Seq<char>,
)
    ensures
        entries_named(present_when(on, a) + present_when(also, b), name)
            == present_when(on && a.name@ == name, a) + present_when(also && b.name@ == name, b),
{
    lemma_entries_named_concat(present_when(on, a), present_when(also, b), name);
    lemma_entries_named_present(on, a, name);
    lemma_entries_named_present(also, b, name);
}

/// Fifteen attribute lists concatenated in order, grouped as a control's parts group them.
#[verifier::opaque]
pub open spec fn concat_fifteen(c0: Seq<Attribute<AttributeValueView>>, c1: Seq<Attribute<AttributeValueView>>, c2: Seq<Attribute<AttributeValueView>>, c3: Seq<Attribute<AttributeValueView>>, c4: Seq<Attribute<AttributeValueView>>, c5: Seq<Attribute<AttributeValueView>>, c6: Seq<Attribute<AttributeValueView>>, c7: Seq<Attribute<AttributeValueView>>, c8: Seq<Attribute<AttributeValueView>>, c9: Seq<Attribute<AttributeValueView>>, c10: Seq<Attribute<AttributeValueView>>, c11: Seq<Attribute<AttributeValueView>>, c12: Seq<Attribute<AttributeValueView>>, c13: Seq<Attribute<AttributeValueView>>, c14: Seq<Attribute<AttributeValueView>>) -> Seq<Attribute<AttributeValueView>> {
    c0 + c1 + (c2 + c3) + (c4 + c5) + (c6 + c7) + c8 + c9 + c10 + c11 + c12 + c13 + c14
}

/// The control's attributes named `name`, before sorting: each attribute the control may carry,
/// when it carries it and it has that name.
pub open spec fn control_entries_named(meta: FieldMetaView, options: FieldControlOptionsView, name: Seq<char>) -> Seq<Attribute<AttributeValueView>> {
    let required = resolve_flag(options.state.required, meta.values.required);
    let disabled = resolve_flag(options.state.disabled, meta.values.disabled);
    let invalid = resolve_flag(options.state.invalid, meta.is_invalid());
    let errors = ids_of(meta.registered.entries, RegisteredIdKind::Error);
    let labelled_by = id_reference_list(ids_of(meta.registered.entries, RegisteredIdKind::Label));
    let described_by = id_reference_list(described_by_ids(meta.registered, invalid));
    let control_name = resolved_control_name(meta, options);
    let aria_validity = options.surface.validity == ValiditySurface::Aria;
    concat_fifteen(
        present_when("id"@ == name, text_attribute("id", resolved_control_id(meta, options))),
        present_when(
            options.surface.name == NameSurface::Native && control_name is Some && "name"@ == name,
            text_attribute("name", control_name->0),
        ),
        present_when(
            options.surface.required == AttributeSurface::Native && required && "required"@ == name,
            flag_attribute("required"),
        ),
        present_when(
            options.surface.required == AttributeSurface::Aria && required && "aria-required"@ == name,
            text_attribute("aria-required", "true"@),
        ),
        present_when(
            options.surface.disabled == AttributeSurface::Native && disabled && "disabled"@ == name,
            flag_attribute("disabled"),
        ),
        present_when(
            options.surface.disabled == AttributeSurface::Aria && disabled && "aria-disabled"@ == name,
            text_attribute("aria-disabled", "true"@),
        ),
        present_when(aria_validity && "aria-invalid"@ == name, text_attribute("aria-invalid", bool_text(invalid))),
        present_when(
            aria_validity && invalid && errors.len() > 0 && "aria-errormessage"@ == name,
            text_attribute("aria-errormessage", errors[0]),
        ),
        present_when(labelled_by is Some && "aria-labelledby"@ == name, text_attribute("aria-labelledby", labelled_by->0)),
        present_when(described_by is Some && "aria-describedby"@ == name, text_attribute("aria-describedby", described_by->0)),
        present_when(required && "data-required"@ == name, text_attribute("data-required", "true"@)),
        present_when(disabled && "data-disabled"@ == name, text_attribute("data-disabled", "true"@)),
        present_when(invalid && "data-invalid"@ == name, text_attribute("data-invalid", "true"@)),
        present_when(meta.values.touched && "data-touched"@ == name, text_attribute("data-touched", "true"@)),
        present_when(meta.values.dirty && "data-dirty"@ == name, text_attribute("data-dirty", "true"@)),
    )
}

/// The entries named `name` of one optional text attribute.
proof fn lemma_named_optional_text(attribute_name: &'static str, text: Option<Seq<char>>, name: Seq<char>)
    ensures
        entries_named(optional_text_attributes(attribute_name, text), name) == present_when(
            text is Some && attribute_name@ == name,
            text_attribute(attribute_name, text->0),
        ),
{
    reveal(present_when);
    assert(optional_text_attributes(attribute_name, text) == present_when(text is Some, text_attribute(attribute_name, text->0)));
    lemma_entries_named_present(text is Some, text_attribute(attribute_name, text->0), name);
}

/// The entries named `name` of one `"true"` state attribute.
proof fn lemma_named_state(attribute_name: &'static str, on: bool, name: Seq<char>)
    ensures
        entries_named(state_attributes(attribute_name, on), name) == present_when(
            on && attribute_name@ == name,
            text_attribute(attribute_name, "true"@),
        ),
{
    reveal(present_when);
    assert(state_attributes(attribute_name, on) == present_when(on, text_attribute(attribute_name, "true"@)));
    lemma_entries_named_present(on, text_attribute(attribute_name, "true"@), name);
}

/// The entries named `name` of one state in its surface spelling.
proof fn lemma_named_surface_state(surface: AttributeSurface, native: &'static str, aria: &'static str, on: bool, name: Seq<char>)
    ensures
        entries_named(surface_state_attributes(surface, native, aria, on), name)
            == present_when(surface == AttributeSurface::Native && on && native@ == name, flag_attribute(native))
            + present_when(surface == AttributeSurface::Aria && on && aria@ == name, text_attribute(aria, "true"@)),
{
    reveal(present_when);
    assert(surface_state_attributes(surface, native, aria, on)
        =~= present_when(surface == AttributeSurface::Native && on, flag_attribute(native))
        + present_when(surface == AttributeSurface::Aria && on, text_attribute(aria, "true"@)));
    lemma_entries_named_pair(
        surface == AttributeSurface::Native && on,
        flag_attribute(native),
        surface == AttributeSurface::Aria && on,
        text_attribute(aria, "true"@),
        name,
    );
}

/// The entries named `name` of the validity attributes.
proof fn lemma_named_validity(validity: ValiditySurface, invalid: bool, errors: Seq<Seq<char>>, name: Seq<char>)
    ensures
        entries_named(validity_attributes(validity, invalid, errors), name)
            == present_when(
            validity == ValiditySurface::Aria && "aria-invalid"@ == name,
            text_attribute("aria-invalid", bool_text(invalid)),
        ) + present_when(
            validity == ValiditySurface::Aria && invalid && errors.len() > 0 && "aria-errormessage"@ == name,
            text_attribute("aria-errormessage", errors[0]),
        ),
{
    reveal(present_when);
    let aria = validity == ValiditySurface::Aria;
    assert(validity_attributes(validity, invalid, errors)
        =~= present_when(aria, text_attribute("aria-invalid", bool_text(invalid)))
        + present_when(aria && invalid && errors.len() > 0, text_attribute("aria-errormessage", errors[0])));
    lemma_entries_named_pair(
        aria,
        text_attribute("aria-invalid", bool_text(invalid)),
        aria && invalid && errors.len() > 0,
        text_attribute("aria-errormessage", errors[0]),
        name,
    );
}

/// The control's attributes named `name`, gathered part by part from the list it builds.
proof fn lemma_control_entries_by_part(meta: FieldMetaView, options: FieldControlOptionsView, name: Seq<char>)
    ensures
        ({
            let required = resolve_flag(options.state.required, meta.values.required);
            let disabled = resolve_flag(options.state.disabled, meta.values.disabled);
            let invalid = resolve_flag(options.state.invalid, meta.is_invalid());
            let name_attributes = if options.surface.name == NameSurface::Native {
                optional_text_attributes("name", resolved_control_name(meta, options))
            } else {
                Seq::empty()
            };
            entries_named(control_attributes(meta, options), name)
                == entries_named(seq![text_attribute("id", resolved_control_id(meta, options))], name)
                + entries_named(name_attributes, name)
                + entries_named(surface_state_attributes(options.surface.required, "required", "aria-required", required), name)
                + entries_named(surface_state_attributes(options.surface.disabled, "disabled", "aria-disabled", disabled), name)
                + entries_named(validity_attributes(options.surface.validity, invalid, ids_of(meta.registered.entries, RegisteredIdKind::Error)), name)
                + entries_named(optional_text_attributes("aria-labelledby", id_reference_list(ids_of(meta.registered.entries, RegisteredIdKind::Label))), name)
                + entries_named(optional_text_attributes("aria-describedby", id_reference_list(described_by_ids(meta.registered, invalid))), name)
                + entries_named(state_attributes("data-required", required), name)
                + entries_named(state_attributes("data-disabled", disabled), name)
                + entries_named(state_attributes("data-invalid", invalid), name)
                + entries_named(state_attributes("data-touched", meta.values.touched), name)
                + entries_named(state_attributes("data-dirty", meta.values.dirty), name)
        }),
{
    let required = resolve_flag(options.state.required, meta.values.required);
    let disabled = resolve_flag(options.state.disabled, meta.values.disabled);
    let invalid = resolve_flag(options.state.invalid, meta.is_invalid());
    let name_attributes = if options.surface.name == NameSurface::Native {
        optional_text_attributes("name", resolved_control_name(meta, options))
    } else {
        Seq::empty()
    };
    lemma_control_attributes_unfold(
        meta,
        options,
        required,
        disabled,
        invalid,
        resolved_control_id(meta, options),
        name_attributes,
    );
    lemma_entries_named_of_parts(
        seq![text_attribute("id", resolved_control_id(meta, options))],
        name_attributes,
        surface_state_attributes(options.surface.required, "required", "aria-required", required),
        surface_state_attributes(options.surface.disabled, "disabled", "aria-disabled", disabled),
        validity_attributes(options.surface.validity, invalid, ids_of(meta.registered.entries, RegisteredIdKind::Error)),
        optional_text_attributes("aria-labelledby", id_reference_list(ids_of(meta.registered.entries, RegisteredIdKind::Label))),
        optional_text_attributes("aria-describedby", id_reference_list(described_by_ids(meta.registered, invalid))),
        state_attributes("data-required", required),
        state_attributes("data-disabled", disabled),
        state_attributes("data-invalid", invalid),
        state_attributes("data-touched", meta.values.touched),
        state_attributes("data-dirty", meta.values.dirty),
        name,
    );
}

/// Summing parts that are equal, part by part, gives equal sums.
proof fn lemma_sum_of_equal_parts(e0: Seq<Attribute<AttributeValueView>>, e1: Seq<Attribute<AttributeValueView>>, e2: Seq<Attribute<AttributeValueView>>, e3: Seq<Attribute<AttributeValueView>>, e4: Seq<Attribute<AttributeValueView>>, e5: Seq<Attribute<AttributeValueView>>, e6: Seq<Attribute<AttributeValueView>>, e7: Seq<Attribute<AttributeValueView>>, e8: Seq<Attribute<AttributeValueView>>, e9: Seq<Attribute<AttributeValueView>>, e10: Seq<Attribute<AttributeValueView>>, e11: Seq<Attribute<AttributeValueView>>, c0: Seq<Attribute<AttributeValueView>>, c1: Seq<Attribute<AttributeValueView>>, c2: Seq<Attribute<AttributeValueView>>, c3: Seq<Attribute<AttributeValueView>>, c4: Seq<Attribute<AttributeValueView>>, c5: Seq<Attribute<AttributeValueView>>, c6: Seq<Attribute<AttributeValueView>>, c7: Seq<Attribute<AttributeValueView>>, c8: Seq<Attribute<AttributeValueView>>, c9: Seq<Attribute<AttributeValueView>>, c10: Seq<Attribute<AttributeValueView>>, c11: Seq<Attribute<AttributeValueView>>, c12: Seq<Attribute<AttributeValueView>>, c13: Seq<Attribute<AttributeValueView>>, c14: Seq<Attribute<AttributeValueView>>)
    requires
        e0 == c0,
        e1 == c1,
        e2 == c2 + c3,
        e3 == c4 + c5,
        e4 == c6 + c7,
        e5 == c8,
        e6 == c9,
        e7 == c10,
        e8 == c11,
        e9 == c12,
        e10 == c13,
        e11 == c14,
    ensures
        e0 + e1 + e2 + e3 + e4 + e5 + e6 + e7 + e8 + e9 + e10 + e11
            == concat_fifteen(c0, c1, c2, c3, c4, c5, c6, c7, c8, c9, c10, c11, c12, c13, c14),
{
    reveal(concat_fifteen);
}

/// The control's attributes named `name`, as the fifteen attributes it may carry.
#[verifier::rlimit(40)]
proof fn lemma_control_entries_as_fifteen(
    meta: FieldMetaView,
    options: FieldControlOptionsView,
    name: Seq<char>,
    required: bool,
    disabled: bool,
    invalid: bool,
    errors: Seq<Seq<char>>,
    labelled_by: Option<Seq<char>>,
    described_by: Option<Seq<char>>,
    control_name: Option<Seq<char>>,
    aria_validity: bool,
)
    requires
        required == resolve_flag(options.state.required, meta.values.required),
        disabled == resolve_flag(options.state.disabled, meta.values.disabled),
        invalid == resolve_flag(options.state.invalid, meta.is_invalid()),
        errors == ids_of(meta.registered.entries, RegisteredIdKind::Error),
        labelled_by == id_reference_list(ids_of(meta.registered.entries, RegisteredIdKind::Label)),
        described_by == id_reference_list(described_by_ids(meta.registered, invalid)),
        control_name == resolved_control_name(meta, options),
        aria_validity == (options.surface.validity == ValiditySurface::Aria),
    ensures
        entries_named(control_attributes(meta, options), name) == concat_fifteen(
        present_when("id"@ == name, text_attribute("id", resolved_control_id(meta, options))),
        present_when(
            options.surface.name == NameSurface::Native && control_name is Some && "name"@ == name,
            text_attribute("name", control_name->0),
        ),
        present_when(
            options.surface.required == AttributeSurface::Native && required && "required"@ == name,
            flag_attribute("required"),
        ),
        present_when(
            options.surface.required == AttributeSurface::Aria && required && "aria-required"@ == name,
            text_attribute("aria-required", "true"@),
        ),
        present_when(
            options.surface.disabled == AttributeSurface::Native && disabled && "disabled"@ == name,
            flag_attribute("disabled"),
        ),
        present_when(
            options.surface.disabled == AttributeSurface::Aria && disabled && "aria-disabled"@ == name,
            text_attribute("aria-disabled", "true"@),
        ),
        present_when(aria_validity && "aria-invalid"@ == name, text_attribute("aria-invalid", bool_text(invalid))),
        present_when(
            aria_validity && invalid && errors.len() > 0 && "aria-errormessage"@ == name,
            text_attribute("aria-errormessage", errors[0]),
        ),
        present_when(labelled_by is Some && "aria-labelledby"@ == name, text_attribute("aria-labelledby", labelled_by->0)),
        present_when(described_by is Some && "aria-describedby"@ == name, text_attribute("aria-describedby", described_by->0)),
        present_when(required && "data-required"@ == name, text_attribute("data-required", "true"@)),
        present_when(disabled && "data-disabled"@ == name, text_attribute("data-disabled", "true"@)),
        present_when(invalid && "data-invalid"@ == name, text_attribute("data-invalid", "true"@)),
        present_when(meta.values.touched && "data-touched"@ == name, text_attribute("data-touched", "true"@)),
        present_when(meta.values.dirty && "data-dirty"@ == name, text_attribute("data-dirty", "true"@)),
    ),
{
    let name_shown = options.surface.name == NameSurface::Native && control_name is Some;
    let name_attributes = if options.surface.name == NameSurface::Native {
        optional_text_attributes("name", control_name)
    } else {
        Seq::empty()
    };
    lemma_control_entries_by_part(meta, options, name);
    let id_attribute = text_attribute("id", resolved_control_id(meta, options));
    let name_attribute = text_attribute("name", control_name->0);
    assert(seq![id_attribute] == present_when(true, id_attribute)) by {
        reveal(present_when);
    }
    lemma_entries_named_present(true, id_attribute, name);
    let c0 = present_when("id"@ == name, id_attribute);
    assert(entries_named(seq![id_attribute], name) == c0);
    assert(name_attributes == present_when(name_shown, name_attribute)) by {
        reveal(present_when);
    }
    lemma_entries_named_present(name_shown, name_attribute, name);
    let c1 = present_when(name_shown && "name"@ == name, name_attribute);
    assert(entries_named(name_attributes, name) == c1);
    lemma_named_surface_state(options.surface.required, "required", "aria-required", required, name);
    lemma_named_surface_state(options.surface.disabled, "disabled", "aria-disabled", disabled, name);
    lemma_named_validity(options.surface.validity, invalid, errors, name);
    lemma_named_optional_text("aria-labelledby", labelled_by, name);
    lemma_named_optional_text("aria-describedby", described_by, name);
    lemma_named_state("data-required", required, name);
    lemma_named_state("data-disabled", disabled, name);
    lemma_named_state("data-invalid", invalid, name);
    lemma_named_state("data-touched", meta.values.touched, name);
    lemma_named_state("data-dirty", meta.values.dirty, name);
    
    lemma_sum_of_equal_parts(
        entries_named(seq![id_attribute], name),
        entries_named(name_attributes, name),
        entries_named(surface_state_attributes(options.surface.required, "required", "aria-required", required), name),
        entries_named(surface_state_attributes(options.surface.disabled, "disabled", "aria-disabled", disabled), name),
        entries_named(validity_attributes(options.surface.validity, invalid, errors), name),
        entries_named(optional_text_attributes("aria-labelledby", labelled_by), name),
        entries_named(optional_text_attributes("aria-describedby", described_by), name),
        entries_named(state_attributes("data-required", required), name),
        entries_named(state_attributes("data-disabled", disabled), name),
        entries_named(state_attributes("data-invalid", invalid), name),
        entries_named(state_attributes("data-touched", meta.values.touched), name),
        entries_named(state_attributes("data-dirty", meta.values.dirty), name),
        c0,
        c1,
        present_when(options.surface.required == AttributeSurface::Native && required && "required"@ == name, flag_attribute("required")),
        present_when(options.surface.required == AttributeSurface::Aria && required && "aria-required"@ == name, text_attribute("aria-required", "true"@)),
        present_when(options.surface.disabled == AttributeSurface::Native && disabled && "disabled"@ == name, flag_attribute("disabled")),
        present_when(options.surface.disabled == AttributeSurface::Aria && disabled && "aria-disabled"@ == name, text_attribute("aria-disabled", "true"@)),
        present_when(aria_validity && "aria-invalid"@ == name, text_attribute("aria-invalid", bool_text(invalid))),
        present_when(aria_validity && invalid && errors.len() > 0 && "aria-errormessage"@ == name, text_attribute("aria-errormessage", errors[0])),
        present_when(labelled_by is Some && "aria-labelledby"@ == name, text_attribute("aria-labelledby", labelled_by->0)),
        present_when(described_by is Some && "aria-describedby"@ == name, text_attribute("aria-describedby", described_by->0)),
        present_when(required && "data-required"@ == name, text_attribute("data-required", "true"@)),
        present_when(disabled && "data-disabled"@ == name, text_attribute("data-disabled", "true"@)),
        present_when(invalid && "data-invalid"@ == name, text_attribute("data-invalid", "true"@)),
        present_when(meta.values.touched && "data-touched"@ == name, text_attribute("data-touched", "true"@)),
        present_when(meta.values.dirty && "data-dirty"@ == name, text_attribute("data-dirty", "true"@)),
    );
}

/// The control's attributes named `name` are exactly [`control_entries_named`].
proof fn lemma_control_entries_named(meta: FieldMetaView, options: FieldControlOptionsView, name: Seq<char>)
    ensures
        entries_named(control_attributes(meta, options), name) == control_entries_named(meta, options, name),
{
    let invalid = resolve_flag(options.state.invalid, meta.is_invalid());
    lemma_control_entries_as_fifteen(
        meta,
        options,
        name,
        resolve_flag(options.state.required, meta.values.required),
        resolve_flag(options.state.disabled, meta.values.disabled),
        invalid,
        ids_of(meta.registered.entries, RegisteredIdKind::Error),
        id_reference_list(ids_of(meta.registered.entries, RegisteredIdKind::Label)),
        id_reference_list(described_by_ids(meta.registered, invalid)),
        resolved_control_name(meta, options),
        options.surface.validity == ValiditySurface::Aria,
    );
}

/// The required state a control resolves: the override, else the metadata's own.
pub open spec fn resolved_required(meta: FieldMetaView, options: FieldControlOptionsView) -> bool {
    resolve_flag(options.state.required, meta.values.required)
}

/// The disabled state a control resolves: the override, else the metadata's own.
pub open spec fn resolved_disabled(meta: FieldMetaView, options: FieldControlOptionsView) -> bool {
    resolve_flag(options.state.disabled, meta.values.disabled)
}

/// The invalid state a control resolves: the override, else the metadata's own.
pub open spec fn resolved_invalid(meta: FieldMetaView, options: FieldControlOptionsView) -> bool {
    resolve_flag(options.state.invalid, meta.is_invalid())
}

/// A list that holds `a` when `on` holds at most one entry.
proof fn lemma_present_when_len(on: bool, a: Attribute<AttributeValueView>)
    ensures
        present_when(on, a).len() <= 1,
        !on ==> present_when(on, a) == Seq::<Attribute<AttributeValueView>>::empty(),
        on ==> present_when(on, a) == seq![a],
{
    reveal(present_when);
}

/// Enough of the spelling of each attribute name a control may carry to tell any two apart: its
/// length, its first character, and its sixth where it has one.
proof fn lemma_attribute_name_spellings()
    ensures
        "id"@.len() == 2,
        "id"@[0] == 'i',
        "name"@.len() == 4,
        "name"@[0] == 'n',
        "required"@.len() == 8,
        "required"@[0] == 'r',
        "required"@[5] == 'r',
        "aria-required"@.len() == 13,
        "aria-required"@[0] == 'a',
        "aria-required"@[5] == 'r',
        "disabled"@.len() == 8,
        "disabled"@[0] == 'd',
        "disabled"@[5] == 'l',
        "aria-disabled"@.len() == 13,
        "aria-disabled"@[0] == 'a',
        "aria-disabled"@[5] == 'd',
        "aria-invalid"@.len() == 12,
        "aria-invalid"@[0] == 'a',
        "aria-invalid"@[5] == 'i',
        "aria-errormessage"@.len() == 17,
        "aria-errormessage"@[0] == 'a',
        "aria-errormessage"@[5] == 'e',
        "aria-labelledby"@.len() == 15,
        "aria-labelledby"@[0] == 'a',
        "aria-labelledby"@[5] == 'l',
        "aria-describedby"@.len() == 16,
        "aria-describedby"@[0] == 'a',
        "aria-describedby"@[5] == 'd',
        "data-required"@.len() == 13,
        "data-required"@[0] == 'd',
        "data-required"@[5] == 'r',
        "data-disabled"@.len() == 13,
        "data-disabled"@[0] == 'd',
        "data-disabled"@[5] == 'd',
        "data-invalid"@.len() == 12,
        "data-invalid"@[0] == 'd',
        "data-invalid"@[5] == 'i',
        "data-touched"@.len() == 12,
        "data-touched"@[0] == 'd',
        "data-touched"@[5] == 't',
        "data-dirty"@.len() == 10,
        "data-dirty"@[0] == 'd',
        "data-dirty"@[5] == 'd',
{
    reveal_strlit("id");
    assert("id"@.len() == 2);
    assert("id"@[0] == 'i');
    reveal_strlit("name");
    assert("name"@.len() == 4);
    assert("name"@[0] == 'n');
    reveal_strlit("required");
    assert("required"@.len() == 8);
    assert("required"@[0] == 'r');
    assert("required"@[5] == 'r');
    reveal_strlit("aria-required");
    assert("aria-required"@.len() == 13);
    assert("aria-required"@[0] == 'a');
    assert("aria-required"@[5] == 'r');
    reveal_strlit("disabled");
    assert("disabled"@.len() == 8);
    assert("disabled"@[0] == 'd');
    assert("disabled"@[5] == 'l');
    reveal_strlit("aria-disabled");
    assert("aria-disabled"@.len() == 13);
    assert("aria-disabled"@[0] == 'a');
    assert("aria-disabled"@[5] == 'd');
    reveal_strlit("aria-invalid");
    assert("aria-invalid"@.len() == 12);
    assert("aria-invalid"@[0] == 'a');
    assert("aria-invalid"@[5] == 'i');
    reveal_strlit("aria-errormessage");
    assert("aria-errormessage"@.len() == 17);
    assert("aria-errormessage"@[0] == 'a');
    assert("aria-errormessage"@[5] == 'e');
    reveal_strlit("aria-labelledby");
    assert("aria-labelledby"@.len() == 15);
    assert("aria-labelledby"@[0] == 'a');
    assert("aria-labelledby"@[5] == 'l');
    reveal_strlit("aria-describedby");
    assert("aria-describedby"@.len() == 16);
    assert("aria-describedby"@[0] == 'a');
    assert("aria-describedby"@[5] == 'd');
    reveal_strlit("data-required");
    assert("data-required"@.len() == 13);
    assert("data-required"@[0] == 'd');
    assert("data-required"@[5] == 'r');
    reveal_strlit("data-disabled");
    assert("data-disabled"@.len() == 13);
    assert("data-disabled"@[0] == 'd');
    assert("data-disabled"@[5] == 'd');
    reveal_strlit("data-invalid");
    assert("data-invalid"@.len() == 12);
    assert("data-invalid"@[0] == 'd');
    assert("data-invalid"@[5] == 'i');
    reveal_strlit("data-touched");
    assert("data-touched"@.len() == 12);
    assert("data-touched"@[0] == 'd');
    assert("data-touched"@[5] == 't');
    reveal_strlit("data-dirty");
    assert("data-dirty"@.len() == 10);
    assert("data-dirty"@[0] == 'd');
    assert("data-dirty"@[5] == 'd');
}

/// The control's attributes named `id`.
proof fn lemma_control_named_id(meta: FieldMetaView, options: FieldControlOptionsView)
    ensures
        entries_named(control_attributes(meta, options), "id"@) == seq![text_attribute("id", resolved_control_id(meta, options))],
{
    lemma_control_entries_named(meta, options, "id"@);
    reveal(concat_fifteen);
    reveal(present_when);
    lemma_attribute_name_spellings();
    assert(control_entries_named(meta, options, "id"@) =~= seq![text_attribute("id", resolved_control_id(meta, options))]);
}

/// The control's attributes named `name`.
proof fn lemma_control_named_name(meta: FieldMetaView, options: FieldControlOptionsView)
    ensures
        entries_named(control_attributes(meta, options), "name"@) == present_when(options.surface.name == NameSurface::Native && resolved_control_name(meta, options) is Some, text_attribute("name", resolved_control_name(meta, options)->0)),
{
    lemma_control_entries_named(meta, options, "name"@);
    reveal(concat_fifteen);
    reveal(present_when);
    lemma_attribute_name_spellings();
    assert(control_entries_named(meta, options, "name"@) =~= present_when(options.surface.name == NameSurface::Native && resolved_control_name(meta, options) is Some, text_attribute("name", resolved_control_name(meta, options)->0)));
}

/// The control's attributes named `required`.
proof fn lemma_control_named_required(meta: FieldMetaView, options: FieldControlOptionsView)
    ensures
        entries_named(control_attributes(meta, options), "required"@) == present_when(options.surface.required == AttributeSurface::Native && resolved_required(meta, options), flag_attribute("required")),
{
    lemma_control_entries_named(meta, options, "required"@);
    reveal(concat_fifteen);
    reveal(present_when);
    lemma_attribute_name_spellings();
    assert(control_entries_named(meta, options, "required"@) =~= present_when(options.surface.required == AttributeSurface::Native && resolved_required(meta, options), flag_attribute("required")));
}

/// The control's attributes named `aria-required`.
proof fn lemma_control_named_aria_required(meta: FieldMetaView, options: FieldControlOptionsView)
    ensures
        entries_named(control_attributes(meta, options), "aria-required"@) == present_when(options.surface.required == AttributeSurface::Aria && resolved_required(meta, options), text_attribute("aria-required", "true"@)),
{
    lemma_control_entries_named(meta, options, "aria-required"@);
    reveal(concat_fifteen);
    reveal(present_when);
    lemma_attribute_name_spellings();
    assert(control_entries_named(meta, options, "aria-required"@) =~= present_when(options.surface.required == AttributeSurface::Aria && resolved_required(meta, options), text_attribute("aria-required", "true"@)));
}

/// The control's attributes named `disabled`.
proof fn lemma_control_named_disabled(meta: FieldMetaView, options: FieldControlOptionsView)
    ensures
        entries_named(control_attributes(meta, options), "disabled"@) == present_when(options.surface.disabled == AttributeSurface::Native && resolved_disabled(meta, options), flag_attribute("disabled")),
{
    lemma_control_entries_named(meta, options, "disabled"@);
    reveal(concat_fifteen);
    reveal(present_when);
    lemma_attribute_name_spellings();
    assert(control_entries_named(meta, options, "disabled"@) =~= present_when(options.surface.disabled == AttributeSurface::Native && resolved_disabled(meta, options), flag_attribute("disabled")));
}

/// The control's attributes named `aria-disabled`.
proof fn lemma_control_named_aria_disabled(meta: FieldMetaView, options: FieldControlOptionsView)
    ensures
        entries_named(control_attributes(meta, options), "aria-disabled"@) == present_when(options.surface.disabled == AttributeSurface::Aria && resolved_disabled(meta, options), text_attribute("aria-disabled", "true"@)),
{
    lemma_control_entries_named(meta, options, "aria-disabled"@);
    reveal(concat_fifteen);
    reveal(present_when);
    lemma_attribute_name_spellings();
    assert(control_entries_named(meta, options, "aria-disabled"@) =~= present_when(options.surface.disabled == AttributeSurface::Aria && resolved_disabled(meta, options), text_attribute("aria-disabled", "true"@)));
}

/// The control's attributes named `aria-invalid`.
proof fn lemma_control_named_aria_invalid(meta: FieldMetaView, options: FieldControlOptionsView)
    ensures
        entries_named(control_attributes(meta, options), "aria-invalid"@) == present_when(options.surface.validity == ValiditySurface::Aria, text_attribute("aria-invalid", bool_text(resolved_invalid(meta, options)))),
{
    lemma_control_entries_named(meta, options, "aria-invalid"@);
    reveal(concat_fifteen);
    reveal(present_when);
    lemma_attribute_name_spellings();
    assert(control_entries_named(meta, options, "aria-invalid"@) =~= present_when(options.surface.validity == ValiditySurface::Aria, text_attribute("aria-invalid", bool_text(resolved_invalid(meta, options)))));
}

/// The control's attributes named `aria-errormessage`.
proof fn lemma_control_named_aria_errormessage(meta: FieldMetaView, options: FieldControlOptionsView)
    ensures
        entries_named(control_attributes(meta, options), "aria-errormessage"@) == present_when(options.surface.validity == ValiditySurface::Aria && resolved_invalid(meta, options) && ids_of(meta.registered.entries, RegisteredIdKind::Error).len() > 0, text_attribute("aria-errormessage", ids_of(meta.registered.entries, RegisteredIdKind::Error)[0])),
{
    lemma_control_entries_named(meta, options, "aria-errormessage"@);
    reveal(concat_fifteen);
    reveal(present_when);
    lemma_attribute_name_spellings();
    assert(control_entries_named(meta, options, "aria-errormessage"@) =~= present_when(options.surface.validity == ValiditySurface::Aria && resolved_invalid(meta, options) && ids_of(meta.registered.entries, RegisteredIdKind::Error).len() > 0, text_attribute("aria-errormessage", ids_of(meta.registered.entries, RegisteredIdKind::Error)[0])));
}

/// The control's attributes named `aria-labelledby`.
proof fn lemma_control_named_aria_labelledby(meta: FieldMetaView, options: FieldControlOptionsView)
    ensures
        entries_named(control_attributes(meta, options), "aria-labelledby"@) == present_when(ids_of(meta.registered.entries, RegisteredIdKind::Label).len() > 0, text_attribute("aria-labelledby", space_joined(ids_of(meta.registered.entries, RegisteredIdKind::Label)))),
{
    lemma_control_entries_named(meta, options, "aria-labelledby"@);
    reveal(concat_fifteen);
    reveal(present_when);
    lemma_attribute_name_spellings();
    assert(control_entries_named(meta, options, "aria-labelledby"@) =~= present_when(ids_of(meta.registered.entries, RegisteredIdKind::Label).len() > 0, text_attribute("aria-labelledby", space_joined(ids_of(meta.registered.entries, RegisteredIdKind::Label)))));
}

/// The control's attributes named `aria-describedby`.
proof fn lemma_control_named_aria_describedby(meta: FieldMetaView, options: FieldControlOptionsView)
    ensures
        entries_named(control_attributes(meta, options), "aria-describedby"@) == present_when(described_by_ids(meta.registered, resolved_invalid(meta, options)).len() > 0, text_attribute("aria-describedby", space_joined(described_by_ids(meta.registered, resolved_invalid(meta, options))))),
{
    lemma_control_entries_named(meta, options, "aria-describedby"@);
    reveal(concat_fifteen);
    reveal(present_when);
    lemma_attribute_name_spellings();
    assert(control_entries_named(meta, options, "aria-describedby"@) =~= present_when(described_by_ids(meta.registered, resolved_invalid(meta, options)).len() > 0, text_attribute("aria-describedby", space_joined(described_by_ids(meta.registered, resolved_invalid(meta, options))))));
}

/// The control's attributes named `data-required`.
proof fn lemma_control_named_data_required(meta: FieldMetaView, options: FieldControlOptionsView)
    ensures
        entries_named(control_attributes(meta, options), "data-required"@) == present_when(resolved_required(meta, options), text_attribute("data-required", "true"@)),
{
    lemma_control_entries_named(meta, options, "data-required"@);
    reveal(concat_fifteen);
    reveal(present_when);
    lemma_attribute_name_spellings();
    assert(control_entries_named(meta, options, "data-required"@) =~= present_when(resolved_required(meta, options), text_attribute("data-required", "true"@)));
}

/// The control's attributes named `data-disabled`.
proof fn lemma_control_named_data_disabled(meta: FieldMetaView, options: FieldControlOptionsView)
    ensures
        entries_named(control_attributes(meta, options), "data-disabled"@) == present_when(resolved_disabled(meta, options), text_attribute("data-disabled", "true"@)),
{
    lemma_control_entries_named(meta, options, "data-disabled"@);
    reveal(concat_fifteen);
    reveal(present_when);
    lemma_attribute_name_spellings();
    assert(control_entries_named(meta, options, "data-disabled"@) =~= present_when(resolved_disabled(meta, options), text_attribute("data-disabled", "true"@)));
}

/// The control's attributes named `data-invalid`.
proof fn lemma_control_named_data_invalid(meta: FieldMetaView, options: FieldControlOptionsView)
    ensures
        entries_named(control_attributes(meta, options), "data-invalid"@) == present_when(resolved_invalid(meta, options), text_attribute("data-invalid", "true"@)),
{
    lemma_control_entries_named(meta, options, "data-invalid"@);
    reveal(concat_fifteen);
    reveal(present_when);
    lemma_attribute_name_spellings();
    assert(control_entries_named(meta, options, "data-invalid"@) =~= present_when(resolved_invalid(meta, options), text_attribute("data-invalid", "true"@)));
}

/// The control's attributes named `data-touched`.
proof fn lemma_control_named_data_touched(meta: FieldMetaView, options: FieldControlOptionsView)
    ensures
        entries_named(control_attributes(meta, options), "data-touched"@) == present_when(meta.values.touched, text_attribute("data-touched", "true"@)),
{
    lemma_control_entries_named(meta, options, "data-touched"@);
    reveal(concat_fifteen);
    reveal(present_when);
    lemma_attribute_name_spellings();
    assert(control_entries_named(meta, options, "data-touched"@) =~= present_when(meta.values.touched, text_attribute("data-touched", "true"@)));
}

/// The control's attributes named `data-dirty`.
proof fn lemma_control_named_data_dirty(meta: FieldMetaView, options: FieldControlOptionsView)
    ensures
        entries_named(control_attributes(meta, options), "data-dirty"@) == present_when(meta.values.dirty, text_attribute("data-dirty", "true"@)),
{
    lemma_control_entries_named(meta, options, "data-dirty"@);
    reveal(concat_fifteen);
    reveal(present_when);
    lemma_attribute_name_spellings();
    assert(control_entries_named(meta, options, "data-dirty"@) =~= present_when(meta.values.dirty, text_attribute("data-dirty", "true"@)));
}

/// Which attributes name the control and spell its required and disabled states, whatever the
/// overrides and the surface.
///
/// The control carries exactly one `id`: the override, else the metadata's id. It carries a
/// `name` only when its surface accepts one and a name resolves. A required control carries
/// native `required` on a native surface, `aria-required="true"` on an ARIA surface, and neither
/// when the surface omits the state; it never carries the other spelling, and a control that is
/// not required carries neither. Disabled works the same way.
pub proof fn law_control_identity_and_states(
    result: Seq<Attribute<AttributeValueView>>,
    meta: FieldMetaView,
    options: FieldControlOptionsView,
)
    requires
        is_normal_form(result, control_attributes(meta, options)),
    ensures
        entries_named(result, "id"@) == seq![text_attribute("id", resolved_control_id(meta, options))],
        entries_named(result, "name"@) == present_when(
            options.surface.name == NameSurface::Native && resolved_control_name(meta, options) is Some,
            text_attribute("name", resolved_control_name(meta, options)->0),
        ),
        entries_named(result, "required"@) == present_when(
            options.surface.required == AttributeSurface::Native && resolved_required(meta, options),
            flag_attribute("required"),
        ),
        entries_named(result, "aria-required"@) == present_when(
            options.surface.required == AttributeSurface::Aria && resolved_required(meta, options),
            text_attribute("aria-required", "true"@),
        ),
        entries_named(result, "disabled"@) == present_when(
            options.surface.disabled == AttributeSurface::Native && resolved_disabled(meta, options),
            flag_attribute("disabled"),
        ),
        entries_named(result, "aria-disabled"@) == present_when(
            options.surface.disabled == AttributeSurface::Aria && resolved_disabled(meta, options),
            text_attribute("aria-disabled", "true"@),
        ),
{
    let inp = control_attributes(meta, options);
    lemma_control_named_id(meta, options);
    law_normal_form_keeps_single_names(result, inp, "id"@);
    lemma_control_named_name(meta, options);
    lemma_present_when_len(options.surface.name == NameSurface::Native && resolved_control_name(meta, options) is Some, text_attribute("name", resolved_control_name(meta, options)->0));
    law_normal_form_keeps_single_names(result, inp, "name"@);
    lemma_control_named_required(meta, options);
    lemma_present_when_len(options.surface.required == AttributeSurface::Native && resolved_required(meta, options), flag_attribute("required"));
    law_normal_form_keeps_single_names(result, inp, "required"@);
    lemma_control_named_aria_required(meta, options);
    lemma_present_when_len(options.surface.required == AttributeSurface::Aria && resolved_required(meta, options), text_attribute("aria-required", "true"@));
    law_normal_form_keeps_single_names(result, inp, "aria-required"@);
    lemma_control_named_disabled(meta, options);
    lemma_present_when_len(options.surface.disabled == AttributeSurface::Native && resolved_disabled(meta, options), flag_attribute("disabled"));
    law_normal_form_keeps_single_names(result, inp, "disabled"@);
    lemma_control_named_aria_disabled(meta, options);
    lemma_present_when_len(options.surface.disabled == AttributeSurface::Aria && resolved_disabled(meta, options), text_attribute("aria-disabled", "true"@));
    law_normal_form_keeps_single_names(result, inp, "aria-disabled"@);
}

/// Which attributes expose the control's validity and reference its mounted parts.
///
/// On a surface that exposes validity, `aria-invalid` always carries the resolved invalid state,
/// and `aria-errormessage` carries the first mounted error id, a single id, exactly while the
/// control is invalid and an error part is mounted; on a surface that omits validity neither
/// appears. `aria-labelledby` lists the mounted label ids in registration order whenever there is
/// one, and `aria-describedby` lists the mounted description ids, then every mounted error id
/// while invalid, whenever that list is not empty.
pub proof fn law_control_validity_and_references(
    result: Seq<Attribute<AttributeValueView>>,
    meta: FieldMetaView,
    options: FieldControlOptionsView,
)
    requires
        is_normal_form(result, control_attributes(meta, options)),
    ensures
        entries_named(result, "aria-invalid"@) == present_when(
            options.surface.validity == ValiditySurface::Aria,
            text_attribute("aria-invalid", bool_text(resolved_invalid(meta, options))),
        ),
        entries_named(result, "aria-errormessage"@) == present_when(
            options.surface.validity == ValiditySurface::Aria && resolved_invalid(meta, options) && ids_of(meta.registered.entries, RegisteredIdKind::Error).len() > 0,
            text_attribute("aria-errormessage", ids_of(meta.registered.entries, RegisteredIdKind::Error)[0]),
        ),
        entries_named(result, "aria-labelledby"@) == present_when(
            ids_of(meta.registered.entries, RegisteredIdKind::Label).len() > 0,
            text_attribute("aria-labelledby", space_joined(ids_of(meta.registered.entries, RegisteredIdKind::Label))),
        ),
        entries_named(result, "aria-describedby"@) == present_when(
            described_by_ids(meta.registered, resolved_invalid(meta, options)).len() > 0,
            text_attribute("aria-describedby", space_joined(described_by_ids(meta.registered, resolved_invalid(meta, options)))),
        ),
{
    let inp = control_attributes(meta, options);
    lemma_control_named_aria_invalid(meta, options);
    lemma_present_when_len(options.surface.validity == ValiditySurface::Aria, text_attribute("aria-invalid", bool_text(resolved_invalid(meta, options))));
    law_normal_form_keeps_single_names(result, inp, "aria-invalid"@);
    lemma_control_named_aria_errormessage(meta, options);
    lemma_present_when_len(options.surface.validity == ValiditySurface::Aria && resolved_invalid(meta, options) && ids_of(meta.registered.entries, RegisteredIdKind::Error).len() > 0, text_attribute("aria-errormessage", ids_of(meta.registered.entries, RegisteredIdKind::Error)[0]));
    law_normal_form_keeps_single_names(result, inp, "aria-errormessage"@);
    lemma_control_named_aria_labelledby(meta, options);
    lemma_present_when_len(ids_of(meta.registered.entries, RegisteredIdKind::Label).len() > 0, text_attribute("aria-labelledby", space_joined(ids_of(meta.registered.entries, RegisteredIdKind::Label))));
    law_normal_form_keeps_single_names(result, inp, "aria-labelledby"@);
    lemma_control_named_aria_describedby(meta, options);
    lemma_present_when_len(described_by_ids(meta.registered, resolved_invalid(meta, options)).len() > 0, text_attribute("aria-describedby", space_joined(described_by_ids(meta.registered, resolved_invalid(meta, options)))));
    law_normal_form_keeps_single_names(result, inp, "aria-describedby"@);
}

/// The `data-*` state attributes: each carries `"true"` exactly while its resolved state holds
/// and is absent otherwise, on every surface.
pub proof fn law_control_data_states(
    result: Seq<Attribute<AttributeValueView>>,
    meta: FieldMetaView,
    options: FieldControlOptionsView,
)
    requires
        is_normal_form(result, control_attributes(meta, options)),
    ensures
        entries_named(result, "data-required"@) == present_when(
            resolved_required(meta, options),
            text_attribute("data-required", "true"@),
        ),
        entries_named(result, "data-disabled"@) == present_when(
            resolved_disabled(meta, options),
            text_attribute("data-disabled", "true"@),
        ),
        entries_named(result, "data-invalid"@) == present_when(
            resolved_invalid(meta, options),
            text_attribute("data-invalid", "true"@),
        ),
        entries_named(result, "data-touched"@) == present_when(
            meta.values.touched,
            text_attribute("data-touched", "true"@),
        ),
        entries_named(result, "data-dirty"@) == present_when(
            meta.values.dirty,
            text_attribute("data-dirty", "true"@),
        ),
{
    let inp = control_attributes(meta, options);
    lemma_control_named_data_required(meta, options);
    lemma_present_when_len(resolved_required(meta, options), text_attribute("data-required", "true"@));
    law_normal_form_keeps_single_names(result, inp, "data-required"@);
    lemma_control_named_data_disabled(meta, options);
    lemma_present_when_len(resolved_disabled(meta, options), text_attribute("data-disabled", "true"@));
    law_normal_form_keeps_single_names(result, inp, "data-disabled"@);
    lemma_control_named_data_invalid(meta, options);
    lemma_present_when_len(resolved_invalid(meta, options), text_attribute("data-invalid", "true"@));
    law_normal_form_keeps_single_names(result, inp, "data-invalid"@);
    lemma_control_named_data_touched(meta, options);
    lemma_present_when_len(meta.values.touched, text_attribute("data-touched", "true"@));
    law_normal_form_keeps_single_names(result, inp, "data-touched"@);
    lemma_control_named_data_dirty(meta, options);
    lemma_present_when_len(meta.values.dirty, text_attribute("data-dirty", "true"@));
    law_normal_form_keeps_single_names(result, inp, "data-dirty"@);
}

/// The entries named `name` of a part's state attributes, state by state.
proof fn lemma_part_entries_named(meta: FieldMetaView, overrides: FieldStateOverrides, name: Seq<char>)
    ensures
        entries_named(part_state_attributes(meta, overrides), name) == present_when(
            resolve_flag(overrides.required, meta.values.required) && "data-required"@ == name,
            text_attribute("data-required", "true"@),
        ) + present_when(
            resolve_flag(overrides.disabled, meta.values.disabled) && "data-disabled"@ == name,
            text_attribute("data-disabled", "true"@),
        ) + present_when(
            resolve_flag(overrides.invalid, meta.is_invalid()) && "data-invalid"@ == name,
            text_attribute("data-invalid", "true"@),
        ) + present_when(meta.values.touched && "data-touched"@ == name, text_attribute("data-touched", "true"@))
            + present_when(meta.values.dirty && "data-dirty"@ == name, text_attribute("data-dirty", "true"@)),
{
    let p1 = state_attributes("data-required", resolve_flag(overrides.required, meta.values.required));
    let p2 = state_attributes("data-disabled", resolve_flag(overrides.disabled, meta.values.disabled));
    let p3 = state_attributes("data-invalid", resolve_flag(overrides.invalid, meta.is_invalid()));
    let p4 = state_attributes("data-touched", meta.values.touched);
    let p5 = state_attributes("data-dirty", meta.values.dirty);
    assert(part_state_attributes(meta, overrides) == p1 + p2 + p3 + p4 + p5);
    lemma_entries_named_concat(p1, p2, name);
    lemma_entries_named_concat(p1 + p2, p3, name);
    lemma_entries_named_concat(p1 + p2 + p3, p4, name);
    lemma_entries_named_concat(p1 + p2 + p3 + p4, p5, name);
    lemma_named_state("data-required", resolve_flag(overrides.required, meta.values.required), name);
    lemma_named_state("data-disabled", resolve_flag(overrides.disabled, meta.values.disabled), name);
    lemma_named_state("data-invalid", resolve_flag(overrides.invalid, meta.is_invalid()), name);
    lemma_named_state("data-touched", meta.values.touched, name);
    lemma_named_state("data-dirty", meta.values.dirty, name);
}

/// The entries of a part's state attributes named each state, as exact lists.
proof fn lemma_part_entries_by_name(meta: FieldMetaView, overrides: FieldStateOverrides)
    ensures
        entries_named(part_state_attributes(meta, overrides), "data-required"@) == (if match overrides.required {
                Some(value) => value,
                None => meta.values.required,
            } {
            seq![text_attribute("data-required", "true"@)]
        } else {
            Seq::empty()
        }),
        entries_named(part_state_attributes(meta, overrides), "data-disabled"@) == (if match overrides.disabled {
                Some(value) => value,
                None => meta.values.disabled,
            } {
            seq![text_attribute("data-disabled", "true"@)]
        } else {
            Seq::empty()
        }),
        entries_named(part_state_attributes(meta, overrides), "data-invalid"@) == (if match overrides.invalid {
                Some(value) => value,
                None => match meta.values.invalid {
                    Some(value) => value,
                    None => meta.values.errors.len() > 0,
                },
            } {
            seq![text_attribute("data-invalid", "true"@)]
        } else {
            Seq::empty()
        }),
        entries_named(part_state_attributes(meta, overrides), "data-touched"@) == (if meta.values.touched {
            seq![text_attribute("data-touched", "true"@)]
        } else {
            Seq::empty()
        }),
        entries_named(part_state_attributes(meta, overrides), "data-dirty"@) == (if meta.values.dirty {
            seq![text_attribute("data-dirty", "true"@)]
        } else {
            Seq::empty()
        }),
{
    lemma_attribute_name_spellings();
    reveal(present_when);
    let names = seq!["data-required"@, "data-disabled"@, "data-invalid"@, "data-touched"@, "data-dirty"@];
    lemma_part_entries_named(meta, overrides, "data-required"@);
    lemma_part_entries_named(meta, overrides, "data-disabled"@);
    lemma_part_entries_named(meta, overrides, "data-invalid"@);
    lemma_part_entries_named(meta, overrides, "data-touched"@);
    lemma_part_entries_named(meta, overrides, "data-dirty"@);
    let e = Seq::<Attribute<AttributeValueView>>::empty();
    assert(e + e =~= e);
    assert(forall|x: Seq<Attribute<AttributeValueView>>| #[trigger] (e + x) =~= x);
    assert(forall|x: Seq<Attribute<AttributeValueView>>| #[trigger] (x + e) =~= x);
}

/// A field part carries each `data-*` state as `"true"` exactly while it holds and not at all
/// otherwise, where the part's explicit required, disabled and invalid states win over the
/// metadata's own, and invalidity without either falls back to whether any error exists.
pub proof fn law_part_states(
    result: Seq<Attribute<AttributeValueView>>,
    meta: FieldMetaView,
    overrides: FieldStateOverrides,
)
    requires
        is_normal_form(result, part_state_attributes(meta, overrides)),
    ensures
        entries_named(result, "data-required"@) == (if match overrides.required {
                Some(value) => value,
                None => meta.values.required,
            } {
            seq![text_attribute("data-required", "true"@)]
        } else {
            Seq::empty()
        }),
        entries_named(result, "data-disabled"@) == (if match overrides.disabled {
                Some(value) => value,
                None => meta.values.disabled,
            } {
            seq![text_attribute("data-disabled", "true"@)]
        } else {
            Seq::empty()
        }),
        entries_named(result, "data-invalid"@) == (if match overrides.invalid {
                Some(value) => value,
                None => match meta.values.invalid {
                    Some(value) => value,
                    None => meta.values.errors.len() > 0,
                },
            } {
            seq![text_attribute("data-invalid", "true"@)]
        } else {
            Seq::empty()
        }),
        entries_named(result, "data-touched"@) == (if meta.values.touched {
            seq![text_attribute("data-touched", "true"@)]
        } else {
            Seq::empty()
        }),
        entries_named(result, "data-dirty"@) == (if meta.values.dirty {
            seq![text_attribute("data-dirty", "true"@)]
        } else {
            Seq::empty()
        }),
{
    lemma_part_entries_by_name(meta, overrides);
    let inp = part_state_attributes(meta, overrides);
    law_normal_form_keeps_single_names(result, inp, "data-required"@);
    law_normal_form_keeps_single_names(result, inp, "data-disabled"@);
    law_normal_form_keeps_single_names(result, inp, "data-invalid"@);
    law_normal_form_keeps_single_names(result, inp, "data-touched"@);
    law_normal_form_keeps_single_names(result, inp, "data-dirty"@);
}

/// The attributes a field part spreads carry its `data-*` states as [`law_part_states`] gives them,
/// for every state name the forwarded attributes do not set.
pub proof fn law_part_attributes_states(
    result: Seq<Attribute<AttributeValueView>>,
    meta: FieldMetaView,
    overrides: FieldStateOverrides,
    forwarded: Seq<Attribute<AttributeValueView>>,
)
    requires
        is_normal_form(result, part_state_attributes(meta, overrides) + forwarded),
    ensures
        entries_named(forwarded, "data-required"@).len() == 0 ==> entries_named(result, "data-required"@) == (if match overrides.required {
                Some(value) => value,
                None => meta.values.required,
            } {
            seq![text_attribute("data-required", "true"@)]
        } else {
            Seq::empty()
        }),
        entries_named(forwarded, "data-disabled"@).len() == 0 ==> entries_named(result, "data-disabled"@) == (if match overrides.disabled {
                Some(value) => value,
                None => meta.values.disabled,
            } {
            seq![text_attribute("data-disabled", "true"@)]
        } else {
            Seq::empty()
        }),
        entries_named(forwarded, "data-invalid"@).len() == 0 ==> entries_named(result, "data-invalid"@) == (if match overrides.invalid {
                Some(value) => value,
                None => match meta.values.invalid {
                    Some(value) => value,
                    None => meta.values.errors.len() > 0,
                },
            } {
            seq![text_attribute("data-invalid", "true"@)]
        } else {
            Seq::empty()
        }),
        entries_named(forwarded, "data-touched"@).len() == 0 ==> entries_named(result, "data-touched"@) == (if meta.values.touched {
            seq![text_attribute("data-touched", "true"@)]
        } else {
            Seq::empty()
        }),
        entries_named(forwarded, "data-dirty"@).len() == 0 ==> entries_named(result, "data-dirty"@) == (if meta.values.dirty {
            seq![text_attribute("data-dirty", "true"@)]
        } else {
            Seq::empty()
        }),
{
    lemma_part_entries_by_name(meta, overrides);
    let own = part_state_attributes(meta, overrides);
    let inp = own + forwarded;
    lemma_entries_named_concat(own, forwarded, "data-required"@);
    if entries_named(forwarded, "data-required"@).len() == 0 {
        assert(entries_named(inp, "data-required"@) =~= entries_named(own, "data-required"@));
        law_normal_form_keeps_single_names(result, inp, "data-required"@);
    }
    lemma_entries_named_concat(own, forwarded, "data-disabled"@);
    if entries_named(forwarded, "data-disabled"@).len() == 0 {
        assert(entries_named(inp, "data-disabled"@) =~= entries_named(own, "data-disabled"@));
        law_normal_form_keeps_single_names(result, inp, "data-disabled"@);
    }
    lemma_entries_named_concat(own, forwarded, "data-invalid"@);
    if entries_named(forwarded, "data-invalid"@).len() == 0 {
        assert(entries_named(inp, "data-invalid"@) =~= entries_named(own, "data-invalid"@));
        law_normal_form_keeps_single_names(result, inp, "data-invalid"@);
    }
    lemma_entries_named_concat(own, forwarded, "data-touched"@);
    if entries_named(forwarded, "data-touched"@).len() == 0 {
        assert(entries_named(inp, "data-touched"@) =~= entries_named(own, "data-touched"@));
        law_normal_form_keeps_single_names(result, inp, "data-touched"@);
    }
    lemma_entries_named_concat(own, forwarded, "data-dirty"@);
    if entries_named(forwarded, "data-dirty"@).len() == 0 {
        assert(entries_named(inp, "data-dirty"@) =~= entries_named(own, "data-dirty"@));
        law_normal_form_keeps_single_names(result, inp, "data-dirty"@);
    }
}

} // verus!
