use dioxus_field::text::field_identity_suffix;
use dioxus_field::{
    generated_id, join_ids, resolve_source, AttributeSurface, FieldControlOptions, FieldMetaSource,
    FieldStateOverrides, FieldSurface, FocusRequestState, NameSurface, RegisteredIdKind,
    RegisteredIds, ValiditySurface,
};

#[test]
fn resolution_prefers_explicit_then_context_then_standalone() {
    assert_eq!(resolve_source(Some(20), Some(10), 30), (20, FieldMetaSource::Shared));
    assert_eq!(resolve_source(None, Some(10), 30), (10, FieldMetaSource::Shared));
    assert_eq!(resolve_source(None, None, 30), (30, FieldMetaSource::Standalone));
}

#[test]
fn generated_ids_spell_prefix_scope_and_index() {
    assert_eq!(generated_id("field", 0, 0), "dxf-field-0-0");
    assert_eq!(generated_id("label", 12, 305), "dxf-label-12-305");
    assert_eq!(
        generated_id("field", u64::MAX, 10),
        format!("dxf-field-{}-10", u64::MAX)
    );
    assert_eq!(dioxus_field::text::decimal_text(9), "9");
    assert_eq!(dioxus_field::text::decimal_text(10), "10");
    assert_eq!(dioxus_field::text::decimal_text(1_000_007), "1000007");
}

#[test]
fn join_ids_joins_owned_ids() {
    assert_eq!(join_ids(&Vec::new()), None);
    assert_eq!(
        join_ids(&vec![String::from("a"), String::from("b"), String::from("c")]).as_deref(),
        Some("a b c")
    );
}

#[test]
fn surface_presets_match_their_elements() {
    assert_eq!(FieldSurface::default(), FieldSurface::native());
    assert_eq!(
        FieldSurface::native(),
        FieldSurface {
            required: AttributeSurface::Native,
            disabled: AttributeSurface::Native,
            validity: ValiditySurface::Aria,
            name: NameSurface::Native,
        }
    );
    assert_eq!(FieldSurface::button_widget().required, AttributeSurface::Aria);
    assert_eq!(FieldSurface::button_widget().disabled, AttributeSurface::Native);
    assert_eq!(FieldSurface::aria_widget().disabled, AttributeSurface::Aria);
    assert_eq!(FieldSurface::aria_widget().name, NameSurface::Omit);
}

#[test]
fn control_options_builders_replace_one_setting_each() {
    let options = FieldControlOptions::new()
        .required(Some(true))
        .name(Some(String::from("terms")))
        .surface(FieldSurface::button_widget());
    assert_eq!(
        options.state_overrides(),
        FieldStateOverrides {
            invalid: None,
            disabled: None,
            required: Some(true),
        }
    );
    assert_eq!(options.name_override().as_deref(), Some("terms"));
    assert_eq!(options.id_override(), &None);
    assert_eq!(options.attribute_surface(), FieldSurface::button_widget());

    let replaced = options.state(FieldStateOverrides {
        invalid: Some(true),
        disabled: Some(false),
        required: None,
    });
    assert_eq!(replaced.state_overrides().required, None);
    assert_eq!(replaced.state_overrides().invalid, Some(true));
    assert_eq!(FieldControlOptions::default(), FieldControlOptions::new());
}

#[test]
fn registered_ids_are_listed_by_kind_in_registration_order() {
    let mut ids = RegisteredIds::new();
    let first = ids.insert(RegisteredIdKind::Description, String::from("one"));
    let _label = ids.insert(RegisteredIdKind::Label, String::from("label"));
    let second = ids.insert(RegisteredIdKind::Description, String::from("two"));
    assert_eq!(first, 0);
    assert_eq!(second, 2);
    assert_eq!(
        ids.ids(RegisteredIdKind::Description),
        vec![String::from("one"), String::from("two")]
    );
    assert_eq!(ids.ids(RegisteredIdKind::Label), vec![String::from("label")]);
    assert!(ids.ids(RegisteredIdKind::Error).is_empty());
    ids.remove(second);
    assert_eq!(ids.ids(RegisteredIdKind::Description), vec![String::from("one")]);
    let third = ids.insert(RegisteredIdKind::Description, String::from("three"));
    assert_eq!(third, 3);
    assert!(ids.has_capacity());
}

#[test]
fn a_released_focus_slot_reaches_no_widget() {
    let mut slot: FocusRequestState<&str> = FocusRequestState::new();
    assert!(slot.current_callback().is_none());
    let token = slot.register("first");
    assert_eq!(slot.current_callback(), Some(&"first"));
    slot.release(token + 1);
    assert_eq!(slot.current_callback(), Some(&"first"));
    slot.release(token);
    assert!(slot.current_callback().is_none());
    assert!(slot.has_capacity());
}

#[test]
fn field_identity_names_the_available_id_and_name() {
    assert_eq!(
        field_identity_suffix(Some("amount"), Some("amount-field")),
        " (field id: amount, field name: amount-field)"
    );
    assert_eq!(field_identity_suffix(Some("amount"), None), " (field id: amount)");
    assert_eq!(field_identity_suffix(None, Some("amount-field")), " (field name: amount-field)");
    assert_eq!(field_identity_suffix(None, None), "");
}

#[test]
fn generated_ids_differ_across_scopes_and_indices() {
    assert_ne!(generated_id("field", 1, 23), generated_id("field", 12, 3));
    assert_ne!(generated_id("field", 0, 1), generated_id("field", 1, 0));
    assert_eq!(generated_id("error", 3, 4), generated_id("error", 3, 4));
}
