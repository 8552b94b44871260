//! How a rendered control spells its field state, and the overrides a control applies.

use vstd::prelude::*;

use crate::text::text_option_view;

verus! {

/// Explicit state that wins over the resolved metadata's own state.
///
/// This is the whole override set for a field part, and the state subset of the control path
/// carried by [`FieldControlOptions`]. A `None` field defers to the metadata.
#[derive(Clone, Copy, Debug, PartialEq, Eq, Structural)]
pub struct FieldStateOverrides {
    /// Overrides the metadata's invalid state when present.
    pub invalid: Option<bool>,
    /// Overrides the metadata's disabled state when present.
    pub disabled: Option<bool>,
    /// Overrides the metadata's required state when present.
    pub required: Option<bool>,
}

impl FieldStateOverrides {
    /// The override set that overrides nothing.
    pub open spec fn none_spec() -> FieldStateOverrides {
        FieldStateOverrides { invalid: None, disabled: None, required: None }
    }

    /// Overrides nothing.
    pub fn none() -> (r: Self)
        ensures
            r.invalid is None,
            r.disabled is None,
            r.required is None,
    {
        FieldStateOverrides { invalid: None, disabled: None, required: None }
    }
}

impl Default for FieldStateOverrides {
    fn default() -> (r: Self)
        ensures
            r.invalid is None,
            r.disabled is None,
            r.required is None,
    {
        Self::none()
    }
}

/// How one rendered element spells a field attribute that has both a native and an ARIA form.
///
/// The question this answers is attribute applicability — does this element accept this
/// attribute — not which accessibility spelling reads better.
#[derive(Clone, Copy, Debug, PartialEq, Eq, Structural)]
#[non_exhaustive]
pub enum AttributeSurface {
    /// Emit the native HTML attribute, such as `required` or `disabled`.
    Native,
    /// Emit the ARIA attribute, such as `aria-required` or `aria-disabled`.
    Aria,
    /// Emit neither spelling.
    Omit,
}

impl Default for AttributeSurface {
    fn default() -> (r: Self)
        ensures
            r == AttributeSurface::Native,
    {
        AttributeSurface::Native
    }
}

/// How one rendered element exposes validity.
///
/// Validity has no native spelling. This axis gates `aria-invalid` and `aria-errormessage`
/// together, since a validity reference without a validity state is not meaningful.
#[derive(Clone, Copy, Debug, PartialEq, Eq, Structural)]
#[non_exhaustive]
pub enum ValiditySurface {
    /// Emit `aria-invalid`, and `aria-errormessage` while invalid.
    Aria,
    /// Emit neither, for roles where `aria-invalid` is unsupported or deprecated.
    Omit,
}

impl Default for ValiditySurface {
    fn default() -> (r: Self)
        ensures
            r == ValiditySurface::Aria,
    {
        ValiditySurface::Aria
    }
}

/// Whether one rendered element accepts the `name` attribute.
#[derive(Clone, Copy, Debug, PartialEq, Eq, Structural)]
#[non_exhaustive]
pub enum NameSurface {
    /// Emit `name`.
    Native,
    /// Emit nothing: controls rooted on a `div` cannot carry `name`.
    Omit,
}

impl Default for NameSurface {
    fn default() -> (r: Self)
        ensures
            r == NameSurface::Native,
    {
        NameSurface::Native
    }
}

/// How one rendered element spells its field state, one axis per attribute.
///
/// The `data-*` state attributes are outside this type: they are valid on every element and
/// always emitted, whatever the surface.
#[derive(Clone, Copy, Debug, PartialEq, Eq, Structural)]
pub struct FieldSurface {
    /// How the element spells its required state.
    pub required: AttributeSurface,
    /// How the element spells its disabled state.
    pub disabled: AttributeSurface,
    /// How the element spells its validity.
    pub validity: ValiditySurface,
    /// Whether the element carries a `name`.
    pub name: NameSurface,
}

/// `input`, `textarea`, and `select`: every axis that has a native spelling uses it.
pub open spec fn native_surface() -> FieldSurface {
    FieldSurface {
        required: AttributeSurface::Native,
        disabled: AttributeSurface::Native,
        validity: ValiditySurface::Aria,
        name: NameSurface::Native,
    }
}

/// `button[role=checkbox|switch]`: native `disabled` and `name`, ARIA `required`.
pub open spec fn button_widget_surface() -> FieldSurface {
    FieldSurface {
        required: AttributeSurface::Aria,
        disabled: AttributeSurface::Native,
        validity: ValiditySurface::Aria,
        name: NameSurface::Native,
    }
}

/// `div[role=radiogroup]`: every state in its ARIA spelling, and no `name`.
pub open spec fn aria_widget_surface() -> FieldSurface {
    FieldSurface {
        required: AttributeSurface::Aria,
        disabled: AttributeSurface::Aria,
        validity: ValiditySurface::Aria,
        name: NameSurface::Omit,
    }
}

impl FieldSurface {
    /// `input`, `textarea`, and `select` — every axis that has a native spelling uses it, and this
    /// is the default. Validity stays ARIA, since no element spells validity natively.
    pub fn native() -> (r: FieldSurface)
        ensures
            r == native_surface(),
    {
        FieldSurface {
            required: AttributeSurface::Native,
            disabled: AttributeSurface::Native,
            validity: ValiditySurface::Aria,
            name: NameSurface::Native,
        }
    }

    /// `button[role=checkbox|switch]` — native `disabled` and `name` are legal on a `button`,
    /// native `required` is not.
    pub fn button_widget() -> (r: FieldSurface)
        ensures
            r == button_widget_surface(),
    {
        FieldSurface {
            required: AttributeSurface::Aria,
            disabled: AttributeSurface::Native,
            validity: ValiditySurface::Aria,
            name: NameSurface::Native,
        }
    }

    /// `div[role=radiogroup]` — no native attribute applies, and a `div` carries no `name`.
    ///
    /// A control rooted on `role=group` should start here and set `validity` to
    /// [`ValiditySurface::Omit`], since `aria-invalid` is deprecated on that role.
    pub fn aria_widget() -> (r: FieldSurface)
        ensures
            r == aria_widget_surface(),
    {
        FieldSurface {
            required: AttributeSurface::Aria,
            disabled: AttributeSurface::Aria,
            validity: ValiditySurface::Aria,
            name: NameSurface::Omit,
        }
    }
}

impl Default for FieldSurface {
    fn default() -> (r: Self)
        ensures
            r == native_surface(),
    {
        FieldSurface::native()
    }
}


/// Everything a field-aware control tells the metadata about itself when it asks for attributes.
///
/// Overrides are resolved before any attribute is built, so an overridden state is never emitted
/// twice and never has to be filtered back out of the result.
#[derive(Clone, Debug, PartialEq)]
pub struct FieldControlOptions {
    state: FieldStateOverrides,
    id: Option<String>,
    name: Option<String>,
    surface: FieldSurface,
}

/// The mathematical value of a [`FieldControlOptions`].
pub struct FieldControlOptionsView {
    /// The state overrides.
    pub state: FieldStateOverrides,
    /// The control id override.
    pub id: Option<Seq<char>>,
    /// The control name override.
    pub name: Option<Seq<char>>,
    /// The element's attribute surface.
    pub surface: FieldSurface,
}

/// Options that override nothing and render onto a native element.
pub open spec fn default_control_options() -> FieldControlOptionsView {
    FieldControlOptionsView {
        state: FieldStateOverrides::none_spec(),
        id: None,
        name: None,
        surface: native_surface(),
    }
}

impl View for FieldControlOptions {
    type V = FieldControlOptionsView;

    closed spec fn view(&self) -> FieldControlOptionsView {
        FieldControlOptionsView {
            state: self.state,
            id: text_option_view(self.id),
            name: text_option_view(self.name),
            surface: self.surface,
        }
    }
}

impl FieldControlOptions {
    /// Creates options that override nothing and render onto [`FieldSurface::native`].
    #[must_use]
    pub fn new() -> (r: Self)
        ensures
            r@ == default_control_options(),
    {
        FieldControlOptions {
            state: FieldStateOverrides::none(),
            id: None,
            name: None,
            surface: FieldSurface::native(),
        }
    }

    /// Replaces the whole state override set.
    #[must_use]
    pub fn state(self, state: FieldStateOverrides) -> (r: Self)
        ensures
            r@ == (FieldControlOptionsView { state, ..self@ }),
    {
        FieldControlOptions { state, ..self }
    }

    /// Overrides the metadata's invalid state.
    #[must_use]
    pub fn invalid(self, invalid: Option<bool>) -> (r: Self)
        ensures
            r@ == (FieldControlOptionsView {
                state: FieldStateOverrides { invalid, ..self@.state },
                ..self@
            }),
    {
        let mut options = self;
        options.state.invalid = invalid;
        options
    }

    /// Overrides the metadata's disabled state.
    #[must_use]
    pub fn disabled(self, disabled: Option<bool>) -> (r: Self)
        ensures
            r@ == (FieldControlOptionsView {
                state: FieldStateOverrides { disabled, ..self@.state },
                ..self@
            }),
    {
        let mut options = self;
        options.state.disabled = disabled;
        options
    }

    /// Overrides the metadata's required state.
    #[must_use]
    pub fn required(self, required: Option<bool>) -> (r: Self)
        ensures
            r@ == (FieldControlOptionsView {
                state: FieldStateOverrides { required, ..self@.state },
                ..self@
            }),
    {
        let mut options = self;
        options.state.required = required;
        options
    }

    /// Overrides the metadata's control id.
    ///
    /// This replaces the emitted value; it does not suppress the attribute. `id` is a global
    /// attribute, so there is no element that must not carry one.
    #[must_use]
    pub fn id(self, id: Option<String>) -> (r: Self)
        ensures
            r@ == (FieldControlOptionsView { id: text_option_view(id), ..self@ }),
    {
        FieldControlOptions { id, ..self }
    }

    /// Overrides the metadata's control name.
    ///
    /// This replaces the emitted value. To suppress the attribute on an element that cannot carry
    /// it, set [`FieldSurface::name`] to [`NameSurface::Omit`] instead.
    #[must_use]
    pub fn name(self, name: Option<String>) -> (r: Self)
        ensures
            r@ == (FieldControlOptionsView { name: text_option_view(name), ..self@ }),
    {
        FieldControlOptions { name, ..self }
    }

    /// Declares how the rendered element spells each field attribute.
    #[must_use]
    pub fn surface(self, surface: FieldSurface) -> (r: Self)
        ensures
            r@ == (FieldControlOptionsView { surface, ..self@ }),
    {
        FieldControlOptions { surface, ..self }
    }

    /// The state overrides.
    pub fn state_overrides(&self) -> (r: FieldStateOverrides)
        ensures
            r == self@.state,
    {
        self.state
    }

    /// The control id override.
    pub fn id_override(&self) -> (r: &Option<String>)
        ensures
            text_option_view(*r) == self@.id,
    {
        &self.id
    }

    /// The control name override.
    pub fn name_override(&self) -> (r: &Option<String>)
        ensures
            text_option_view(*r) == self@.name,
    {
        &self.name
    }

    /// The element's attribute surface.
    pub fn attribute_surface(&self) -> (r: FieldSurface)
        ensures
            r == self@.surface,
    {
        self.surface
    }
}

impl Default for FieldControlOptions {
    fn default() -> (r: Self)
        ensures
            r@ == default_control_options(),
    {
        FieldControlOptions::new()
    }
}

} // verus!
