use dioxus_field::{
    generated_id, merge_attributes, normalize_attributes, Attribute, AttributeValue,
    FieldControlOptions, FieldMeta, FieldMetaSource, FieldMetaValues, FieldStateOverrides,
    FieldSurface,
};

fn describe(attributes: &[Attribute<AttributeValue>]) -> Vec<String> {
    attributes
        .iter()
        .map(|attribute| match &attribute.value {
            AttributeValue::Text(text) => format!("{}={text}", attribute.name),
            AttributeValue::Bool(value) => format!("{}={value}", attribute.name),
            AttributeValue::Handle(handle) => format!("{}=#{handle}", attribute.name),
        })
        .collect()
}

fn names(attributes: &[Attribute<AttributeValue>]) -> Vec<&'static str> {
    attributes.iter().map(|attribute| attribute.name).collect()
}

fn saturated_values() -> FieldMetaValues {
    FieldMetaValues {
        id: Some(String::from("account-email")),
        name: Some(String::from("email")),
        required: true,
        disabled: true,
        invalid: Some(true),
        errors: vec![String::from("Enter a valid email")],
        touched: true,
        dirty: true,
    }
}

fn emitted(values: FieldMetaValues, options: FieldControlOptions) -> Vec<String> {
    let meta = FieldMeta::new(values, String::from("dxf-field-0-0"));
    describe(&meta.attributes_for(&options))
}

/// The entries present in `before` and absent in `after`, as `name=value`.
fn removed(before: &[String], after: &[String]) -> Vec<String> {
    before
        .iter()
        .filter(|entry| !after.contains(entry))
        .cloned()
        .collect()
}

#[test]
fn a_flag_flip_on_a_spread_control_only_removes_that_flag() {
    let mut meta = FieldMeta::new(saturated_values(), String::from("dxf-field-0-0"));
    let before = describe(&meta.attributes());
    meta.set_required(false);
    let after = describe(&meta.attributes());

    assert_eq!(
        removed(&before, &after),
        vec!["data-required=true", "required=true"],
        "flipping one flag must emit exactly the mutations for that flag"
    );
    assert_eq!(removed(&after, &before), Vec::<String>::new());
}

#[test]
fn a_flag_flip_on_each_part_only_removes_that_flag() {
    let mut meta = FieldMeta::new(saturated_values(), String::from("dxf-field-0-0"));
    let parts = [
        FieldStateOverrides::default(),
        FieldStateOverrides::default(),
        FieldStateOverrides::default(),
    ];
    let before: Vec<Vec<String>> = parts
        .iter()
        .map(|overrides| describe(&meta.part_state_attributes(*overrides)))
        .collect();
    meta.set_required(false);
    let after: Vec<Vec<String>> = parts
        .iter()
        .map(|overrides| describe(&meta.part_state_attributes(*overrides)))
        .collect();

    for (before, after) in before.iter().zip(after.iter()) {
        assert_eq!(
            removed(before, after),
            vec!["data-required=true"],
            "each part must emit exactly the mutation for the flipped flag"
        );
        assert_eq!(removed(after, before), Vec::<String>::new());
    }
}

#[test]
fn the_surface_decides_which_spelling_of_each_attribute_is_emitted() {
    let values = FieldMetaValues {
        id: Some(String::from("terms")),
        name: Some(String::from("terms")),
        required: true,
        disabled: true,
        ..FieldMetaValues::default()
    };

    assert_eq!(
        emitted(
            values.clone(),
            FieldControlOptions::new().surface(FieldSurface::native())
        ),
        [
            "aria-invalid=false",
            "data-disabled=true",
            "data-required=true",
            "disabled=true",
            "id=terms",
            "name=terms",
            "required=true",
        ],
        "an input spells every axis natively"
    );

    assert_eq!(
        emitted(
            values.clone(),
            FieldControlOptions::new().surface(FieldSurface::button_widget())
        ),
        [
            "aria-invalid=false",
            "aria-required=true",
            "data-disabled=true",
            "data-required=true",
            "disabled=true",
            "id=terms",
            "name=terms",
        ],
        "a button[role=switch] takes native disabled but has no native required"
    );

    assert_eq!(
        emitted(
            values,
            FieldControlOptions::new().surface(FieldSurface::aria_widget())
        ),
        [
            "aria-disabled=true",
            "aria-invalid=false",
            "aria-required=true",
            "data-disabled=true",
            "data-required=true",
            "id=terms",
        ],
        "a div[role=radiogroup] carries no native attribute and no name"
    );
}

#[test]
fn an_override_replaces_the_metadata_state_instead_of_appending_to_it() {
    let values = FieldMetaValues {
        id: Some(String::from("email")),
        name: Some(String::from("email")),
        required: true,
        disabled: true,
        ..FieldMetaValues::default()
    };

    assert_eq!(
        emitted(
            values,
            FieldControlOptions::new()
                .required(Some(false))
                .disabled(Some(false))
                .invalid(Some(true))
                .name(Some(String::from("newsletter")))
                .id(Some(String::from("newsletter-email"))),
        ),
        [
            "aria-invalid=true",
            "data-invalid=true",
            "id=newsletter-email",
            "name=newsletter",
        ],
        "an overridden state is never emitted from the metadata as well"
    );
}

#[test]
fn a_field_without_a_producer_id_is_still_labelled_and_addressable() {
    let fallback = generated_id("field", 3, 0);
    let mut meta = FieldMeta::new(FieldMetaValues::default(), fallback.clone());
    let label_id = generated_id("label", 4, 0);
    let _label = meta.register_label_id(label_id.clone());

    let control_id = meta.id();
    assert_eq!(control_id, "dxf-field-3-0");
    assert_eq!(
        meta.label_target(FieldMetaSource::Shared).as_deref(),
        Some(control_id.as_str()),
        "the label must point at the generated control id"
    );
    let rendered = describe(&meta.attributes());
    assert!(
        rendered.contains(&format!("id={control_id}")),
        "the control must render the generated id, got {rendered:?}"
    );
    assert!(
        rendered.contains(&String::from("aria-labelledby=dxf-label-4-0")),
        "the control must reference the label's own id, got {rendered:?}"
    );
}

#[test]
fn a_forwarded_attribute_wins_its_name_and_is_never_emitted_twice() {
    let meta = FieldMeta::new(
        FieldMetaValues {
            invalid: Some(true),
            ..FieldMetaValues::default()
        },
        String::from("dxf-field-0-0"),
    );
    let own = meta.part_state_attributes(FieldStateOverrides::default());
    let forwarded = vec![
        Attribute::new("data-invalid", AttributeValue::Text(String::from("false")), None, false),
        Attribute::new("title", AttributeValue::Text(String::from("first")), None, false),
        Attribute::new("title", AttributeValue::Text(String::from("last")), None, false),
    ];
    let merged = describe(&merge_attributes(vec![own, forwarded]));

    assert!(
        merged.contains(&String::from("data-invalid=false")),
        "a forwarded attribute is appended last, so it wins its name, got {merged:?}"
    );
    assert_eq!(
        merged.iter().filter(|entry| entry.starts_with("data-invalid")).count(),
        1,
        "the part's own state attribute must not survive alongside it, got {merged:?}"
    );
    assert!(
        merged.contains(&String::from("title=last"))
            && merged.iter().filter(|entry| entry.starts_with("title=")).count() == 1,
        "repeats within the forwarded list resolve last-wins too, got {merged:?}"
    );

    let mut field = vec![
        Attribute::new("lang", AttributeValue::Text(String::from("en")), None, false),
        Attribute::new("dir", AttributeValue::Text(String::from("rtl")), None, false),
        Attribute::new("dir", AttributeValue::Text(String::from("ltr")), None, false),
    ];
    normalize_attributes(&mut field);
    assert_eq!(
        describe(&field),
        ["dir=ltr", "lang=en"],
        "`Field` sorts and dedupes its own forwarded list too"
    );
}

#[test]
fn every_attribute_list_is_sorted_with_one_entry_per_name() {
    let mut meta = FieldMeta::new(saturated_values(), String::from("dxf-field-0-0"));
    let _label = meta.register_label_id(String::from("email-label"));
    let _description = meta.register_description_id(String::from("email-help"));
    let _error = meta.register_error_id(String::from("email-error"));
    for surface in [
        FieldSurface::native(),
        FieldSurface::button_widget(),
        FieldSurface::aria_widget(),
    ] {
        let attributes = meta.attributes_for(&FieldControlOptions::new().surface(surface));
        let listed = names(&attributes);
        let mut sorted = listed.clone();
        sorted.sort();
        sorted.dedup();
        assert_eq!(listed, sorted);
    }
}

#[test]
fn attributes_of_a_saturated_field_reference_every_part() {
    let mut meta = FieldMeta::new(saturated_values(), String::from("dxf-field-0-0"));
    let _label = meta.register_label_id(String::from("email-label"));
    let _description = meta.register_description_id(String::from("email-help"));
    let _first_error = meta.register_error_id(String::from("email-error"));
    let _second_error = meta.register_error_id(String::from("email-error-2"));

    assert_eq!(
        describe(&meta.attributes()),
        [
            "aria-describedby=email-help email-error email-error-2",
            "aria-errormessage=email-error",
            "aria-invalid=true",
            "aria-labelledby=email-label",
            "data-dirty=true",
            "data-disabled=true",
            "data-invalid=true",
            "data-required=true",
            "data-touched=true",
            "disabled=true",
            "id=account-email",
            "name=email",
            "required=true",
        ]
    );
}

#[test]
fn an_omitted_validity_surface_drops_aria_invalid_and_errormessage() {
    let mut meta = FieldMeta::new(saturated_values(), String::from("dxf-field-0-0"));
    let _error = meta.register_error_id(String::from("email-error"));
    let mut surface = FieldSurface::aria_widget();
    surface.validity = dioxus_field::ValiditySurface::Omit;
    surface.required = dioxus_field::AttributeSurface::Omit;

    assert_eq!(
        emitted_from(&meta, FieldControlOptions::new().surface(surface)),
        [
            "aria-describedby=email-error",
            "aria-disabled=true",
            "data-dirty=true",
            "data-disabled=true",
            "data-invalid=true",
            "data-required=true",
            "data-touched=true",
            "id=account-email",
        ]
    );
}

fn emitted_from(meta: &FieldMeta, options: FieldControlOptions) -> Vec<String> {
    describe(&meta.attributes_for(&options))
}
