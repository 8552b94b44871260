use dioxus_field::{
    Attribute, AttributeValue, FieldControlOptions, FieldMeta, FieldMetaValues,
    FocusRequestState,
};

fn attribute_text(attributes: &[Attribute<AttributeValue>], name: &str) -> Option<String> {
    attributes
        .iter()
        .find(|attribute| attribute.name == name)
        .map(|attribute| match &attribute.value {
            AttributeValue::Text(value) => value.clone(),
            AttributeValue::Bool(value) => value.to_string(),
            AttributeValue::Handle(handle) => format!("#{handle}"),
        })
}

#[test]
fn field_meta_attributes_derive_accessibility_and_state_with_flag_overrides() {
    let mut meta = FieldMeta::new(
        FieldMetaValues {
            id: Some(String::from("account-email")),
            name: Some(String::from("email")),
            required: true,
            disabled: true,
            errors: vec![String::from("Enter a valid email")],
            touched: true,
            dirty: true,
            ..FieldMetaValues::default()
        },
        String::from("dxf-field-0-0"),
    );
    let _description = meta.register_description_id(String::from("email-help"));
    let _error = meta.register_error_id(String::from("email-error"));

    let attributes = meta.attributes_for(
        &FieldControlOptions::new()
            .invalid(Some(false))
            .disabled(Some(false)),
    );

    assert_eq!(
        attribute_text(&attributes, "id").as_deref(),
        Some("account-email")
    );
    assert_eq!(attribute_text(&attributes, "name").as_deref(), Some("email"));
    assert_eq!(
        attribute_text(&attributes, "aria-invalid").as_deref(),
        Some("false")
    );
    assert_eq!(
        attribute_text(&attributes, "aria-describedby").as_deref(),
        Some("email-help")
    );
    assert_eq!(attribute_text(&attributes, "aria-errormessage"), None);
    assert_eq!(attribute_text(&attributes, "disabled"), None);
    assert_eq!(
        attribute_text(&attributes, "data-touched").as_deref(),
        Some("true")
    );
    assert_eq!(
        attribute_text(&attributes, "data-dirty").as_deref(),
        Some("true")
    );
}

#[test]
fn focus_request_tracks_the_current_lifecycle_registration() {
    let mut requests = 0;
    let mut request = FocusRequestState::new();
    let first = request.register(1);

    if let Some(increment) = request.current_callback() {
        requests += increment;
    } else {
        panic!("the first registration should receive the request");
    }
    let second = request.register(10);
    request.release(first);
    if let Some(increment) = request.current_callback() {
        requests += increment;
    } else {
        panic!("releasing an older registration must not disturb the newer one");
    }
    request.release(second);
    assert!(request.current_callback().is_none());

    assert_eq!(requests, 11);
}

#[test]
fn invalidity_is_explicit_or_derived_from_errors() {
    let mut meta = FieldMeta::new(FieldMetaValues::default(), String::from("fallback"));
    assert!(!meta.invalid());
    meta.set_errors(vec![String::from("Required")]);
    assert!(meta.invalid());
    meta.set_invalid(Some(false));
    assert!(!meta.invalid());
    meta.set_errors(Vec::new());
    meta.set_invalid(Some(true));
    assert!(meta.invalid());
    meta.set_invalid(None);
    assert!(!meta.invalid());
}

#[test]
fn the_control_id_falls_back_to_the_generated_id() {
    let mut meta = FieldMeta::new(FieldMetaValues::default(), String::from("dxf-field-1-2"));
    assert_eq!(meta.id(), "dxf-field-1-2");
    meta.set_id(Some(String::from("email")));
    assert_eq!(meta.id(), "email");
    meta.set_id(None);
    assert_eq!(meta.id(), "dxf-field-1-2");
}

#[test]
fn setters_replace_only_their_own_value() {
    let mut meta = FieldMeta::new(FieldMetaValues::default(), String::from("fallback"));
    meta.set_name(Some(String::from("email")));
    meta.set_required(true);
    meta.set_disabled(true);
    meta.set_touched(true);
    meta.set_dirty(true);
    assert_eq!(meta.name().as_deref(), Some("email"));
    assert!(meta.required() && meta.disabled() && meta.touched() && meta.dirty());
    assert_eq!(meta.errors(), Vec::<String>::new());
    meta.set_name(None);
    assert_eq!(meta.name(), None);
}

#[test]
fn set_values_reports_changes_and_keeps_registered_ids() {
    let mut meta = FieldMeta::new(
        FieldMetaValues {
            id: Some(String::from("email")),
            errors: vec![String::from("Required")],
            ..FieldMetaValues::default()
        },
        String::from("fallback"),
    );
    let _description = meta.register_description_id(String::from("email-help"));

    let changes = meta.set_values(FieldMetaValues {
        id: Some(String::from("email")),
        errors: vec![String::from("Too short")],
        touched: true,
        ..FieldMetaValues::default()
    });
    assert!(!changes.id && !changes.name && !changes.required && !changes.disabled);
    assert!(!changes.invalid && !changes.dirty);
    assert!(changes.errors && changes.touched);
    assert_eq!(meta.errors(), vec![String::from("Too short")]);
    assert_eq!(
        attribute_text(&meta.attributes(), "aria-describedby").as_deref(),
        Some("email-help")
    );

    let unchanged = meta.set_values(meta.values().clone());
    assert_eq!(
        unchanged,
        dioxus_field::FieldMetaChanges {
            id: false,
            name: false,
            required: false,
            disabled: false,
            invalid: false,
            errors: false,
            touched: false,
            dirty: false,
        }
    );
}
