use dioxus_field::{
    testing::{assert_field_part_ids, field_part_ids_match},
    Attribute, AttributeValue, FieldControlOptions, FieldMeta, FieldMetaSource, FieldMetaValues,
    FieldStateOverrides,
};

fn attribute_text(attributes: &[Attribute<AttributeValue>], name: &str) -> Option<String> {
    attributes
        .iter()
        .find(|attribute| attribute.name == name)
        .and_then(|attribute| match &attribute.value {
            AttributeValue::Text(value) => Some(value.clone()),
            AttributeValue::Bool(_) | AttributeValue::Handle(_) => None,
        })
}

fn describe(attributes: &[Attribute<AttributeValue>]) -> Vec<String> {
    attributes
        .iter()
        .map(|attribute| match &attribute.value {
            AttributeValue::Text(text) => format!("{}={text}", attribute.name),
            AttributeValue::Bool(value) => format!("{}={value}", attribute.name),
            AttributeValue::Handle(handle) => format!("{}=#{handle}", attribute.name),
        })
        .collect()
}

#[test]
fn description_and_error_ids_follow_part_mount_and_drop() {
    let mut meta = FieldMeta::new(FieldMetaValues::default(), String::from("dxf-field-0-0"));
    let description = meta.register_description_id(String::from("email-help"));
    let error = meta.register_error_id(String::from("email-error"));

    let attributes = meta.attributes_for(&FieldControlOptions::new().invalid(Some(true)));
    assert_eq!(
        attribute_text(&attributes, "aria-describedby").as_deref(),
        Some("email-help email-error")
    );
    assert_eq!(
        attribute_text(&attributes, "aria-errormessage").as_deref(),
        Some("email-error")
    );
    assert!(field_part_ids_match(&meta, &["email-help"], &["email-error"]));
    assert_field_part_ids(&meta, &["email-help"], &["email-error"]);

    meta.unregister_id(&description);
    meta.unregister_id(&error);

    let attributes = meta.attributes_for(&FieldControlOptions::new().invalid(Some(true)));
    assert_eq!(attribute_text(&attributes, "aria-describedby"), None);
    assert_eq!(attribute_text(&attributes, "aria-errormessage"), None);
    assert!(field_part_ids_match(&meta, &[], &[]));
    assert!(!field_part_ids_match(&meta, &["email-help"], &[]));
}

#[test]
fn field_parts_render_standalone_with_explicit_or_default_metadata() {
    let meta = FieldMeta::new(
        FieldMetaValues {
            id: Some(String::from("email")),
            invalid: Some(true),
            errors: vec![String::from("Required")],
            ..FieldMetaValues::default()
        },
        String::from("dxf-field-0-0"),
    );

    assert_eq!(
        meta.label_target(FieldMetaSource::Shared).as_deref(),
        Some("email")
    );
    assert_eq!(
        describe(&meta.part_state_attributes(FieldStateOverrides::default())),
        ["data-invalid=true"]
    );
    assert_eq!(meta.error_messages(None), vec![String::from("Required")]);

    let standalone = FieldMeta::new(FieldMetaValues::default(), String::from("dxf-field-9-0"));
    assert_eq!(standalone.label_target(FieldMetaSource::Standalone), None);
}

#[test]
fn invalid_changes_reach_field_error_without_rerendering_the_field_parent() {
    let mut meta = FieldMeta::new(FieldMetaValues::default(), String::from("dxf-field-0-0"));
    assert_eq!(meta.error_messages(None), Vec::<String>::new());
    assert_eq!(
        describe(&meta.part_state_attributes(FieldStateOverrides::default())),
        Vec::<String>::new()
    );

    meta.set_errors(vec![String::from("Enter a valid email")]);
    assert_eq!(
        meta.error_messages(None),
        vec![String::from("Enter a valid email")]
    );
    assert_eq!(
        describe(&meta.part_state_attributes(FieldStateOverrides::default())),
        ["data-invalid=true"]
    );
}

#[test]
fn an_error_part_override_hides_or_shows_the_errors() {
    let meta = FieldMeta::new(
        FieldMetaValues {
            errors: vec![String::from("Required"), String::from("Too short")],
            ..FieldMetaValues::default()
        },
        String::from("dxf-field-0-0"),
    );
    assert_eq!(meta.error_messages(Some(false)), Vec::<String>::new());
    assert_eq!(
        meta.error_messages(Some(true)),
        vec![String::from("Required"), String::from("Too short")]
    );
    let overrides = FieldStateOverrides {
        invalid: Some(false),
        disabled: Some(true),
        required: None,
    };
    assert_eq!(
        describe(&meta.part_state_attributes(overrides)),
        ["data-disabled=true"]
    );
}

#[test]
fn releasing_one_part_keeps_the_order_of_the_others() {
    let mut meta = FieldMeta::new(FieldMetaValues::default(), String::from("dxf-field-0-0"));
    let first = meta.register_description_id(String::from("first-help"));
    let _second = meta.register_description_id(String::from("second-help"));
    let _third = meta.register_description_id(String::from("third-help"));
    meta.unregister_id(&first);
    meta.unregister_id(&first);

    assert_eq!(
        attribute_text(&meta.attributes(), "aria-describedby").as_deref(),
        Some("second-help third-help")
    );
    assert!(meta.can_register_id());
}

#[test]
fn a_part_spreads_its_states_then_its_forwarded_attributes() {
    let meta = FieldMeta::new(
        FieldMetaValues {
            invalid: Some(true),
            touched: true,
            ..FieldMetaValues::default()
        },
        String::from("dxf-field-0-0"),
    );
    let forwarded = vec![
        Attribute::new("data-invalid", AttributeValue::Text(String::from("false")), None, false),
        Attribute::new("class", AttributeValue::Text(String::from("first")), None, false),
        Attribute::new("class", AttributeValue::Text(String::from("last")), None, false),
        Attribute::new("onclick", AttributeValue::Handle(3), None, false),
    ];
    let attributes = meta.part_attributes(FieldStateOverrides::default(), forwarded);
    let names: Vec<&str> = attributes.iter().map(|attribute| attribute.name).collect();
    assert_eq!(names, ["class", "data-invalid", "data-touched", "onclick"]);
    assert_eq!(attribute_text(&attributes, "class").as_deref(), Some("last"));
    assert_eq!(attribute_text(&attributes, "data-invalid").as_deref(), Some("false"));
    assert_eq!(attribute_text(&attributes, "data-touched").as_deref(), Some("true"));
    assert_eq!(attributes[3].value, AttributeValue::Handle(3));
}

#[test]
fn releasing_either_of_two_descriptions_keeps_the_other() {
    let mut meta = FieldMeta::new(FieldMetaValues::default(), String::from("dxf-field-0-0"));
    let _label = meta.register_label_id(String::from("label"));
    let first = meta.register_description_id(String::from("a"));
    let second = meta.register_description_id(String::from("b"));
    assert_eq!(attribute_text(&meta.attributes(), "aria-describedby").as_deref(), Some("a b"));
    meta.unregister_id(&first);
    assert_eq!(attribute_text(&meta.attributes(), "aria-describedby").as_deref(), Some("b"));
    assert_eq!(attribute_text(&meta.attributes(), "aria-labelledby").as_deref(), Some("label"));
    meta.unregister_id(&second);
    assert_eq!(attribute_text(&meta.attributes(), "aria-describedby"), None);
    meta.registered_ids_are_well_formed();
}
