use dioxus_field::{
    merge_attributes, normalize_attributes, Attribute, AttributeValue, KeyOrder,
};

fn text(name: &'static str, value: &str) -> Attribute<AttributeValue> {
    Attribute::new(name, AttributeValue::Text(String::from(value)), None, false)
}

fn keyed(attributes: &[Attribute<u32>]) -> Vec<(&'static str, Option<&'static str>, u32)> {
    attributes
        .iter()
        .map(|attribute| (attribute.name, attribute.namespace, attribute.value))
        .collect()
}

#[test]
fn normalizing_sorts_by_name_and_keeps_the_last_entry_per_name() {
    let mut attributes = vec![
        Attribute::new("title", 1, None, false),
        Attribute::new("class", 2, None, false),
        Attribute::new("title", 3, None, false),
        Attribute::new("aria-label", 4, None, false),
        Attribute::new("class", 5, None, false),
    ];
    normalize_attributes(&mut attributes);
    assert_eq!(
        keyed(&attributes),
        [
            ("aria-label", None, 4),
            ("class", None, 5),
            ("title", None, 3),
        ]
    );
}

#[test]
fn namespaces_are_separate_keys_that_sort_after_no_namespace() {
    let mut attributes = vec![
        Attribute::new("color", 1, Some("style"), false),
        Attribute::new("color", 2, None, false),
        Attribute::new("color", 3, Some("svg"), false),
        Attribute::new("color", 4, Some("style"), false),
    ];
    normalize_attributes(&mut attributes);
    assert_eq!(
        keyed(&attributes),
        [
            ("color", None, 2),
            ("color", Some("style"), 4),
            ("color", Some("svg"), 3),
        ]
    );
}

#[test]
fn names_sort_by_bytes_so_prefixes_come_first() {
    let mut attributes = vec![
        Attribute::new("data-x", 1, None, false),
        Attribute::new("data", 2, None, false),
        Attribute::new("Data", 3, None, false),
        Attribute::new("", 4, None, false),
    ];
    normalize_attributes(&mut attributes);
    assert_eq!(
        keyed(&attributes),
        [
            ("", None, 4),
            ("Data", None, 3),
            ("data", None, 2),
            ("data-x", None, 1),
        ]
    );
}

#[test]
fn normalizing_an_empty_list_keeps_it_empty() {
    let mut attributes: Vec<Attribute<u32>> = Vec::new();
    normalize_attributes(&mut attributes);
    assert!(attributes.is_empty());
}

#[test]
fn normalizing_twice_changes_nothing() {
    let mut attributes = vec![
        Attribute::new("b", 1, None, false),
        Attribute::new("a", 2, None, false),
        Attribute::new("b", 3, None, true),
    ];
    normalize_attributes(&mut attributes);
    let once = keyed(&attributes);
    normalize_attributes(&mut attributes);
    assert_eq!(keyed(&attributes), once);
    assert!(attributes[1].volatile);
}

#[test]
fn merged_groups_resolve_last_wins() {
    let merged = merge_attributes(vec![
        vec![text("name", "from-meta"), text("required", "true")],
        vec![text("name", "from-base"), text("class", "base")],
        vec![text("name", "from-explicit")],
        vec![],
    ]);
    let described: Vec<(&str, String)> = merged
        .iter()
        .map(|attribute| match &attribute.value {
            AttributeValue::Text(value) => (attribute.name, value.clone()),
            AttributeValue::Bool(value) => (attribute.name, value.to_string()),
            AttributeValue::Handle(handle) => (attribute.name, format!("#{handle}")),
        })
        .collect();
    assert_eq!(
        described,
        [
            ("class", String::from("base")),
            ("name", String::from("from-explicit")),
            ("required", String::from("true")),
        ]
    );
}

#[test]
fn merging_one_name_twice_keeps_one_entry() {
    let merged = merge_attributes(vec![
        vec![text("name", "from-meta")],
        vec![text("name", "from-explicit")],
    ]);
    assert_eq!(merged.len(), 1);
}

#[test]
fn keys_compare_by_name_then_namespace() {
    let plain = Attribute::new("id", (), None, false);
    let styled = Attribute::new("id", (), Some("style"), false);
    let other = Attribute::new("name", (), None, false);
    assert_eq!(dioxus_field::attribute::compare_keys(&plain, &styled), KeyOrder::Less);
    assert_eq!(dioxus_field::attribute::compare_keys(&styled, &plain), KeyOrder::Greater);
    assert_eq!(dioxus_field::attribute::compare_keys(&plain, &plain), KeyOrder::Equal);
    assert_eq!(dioxus_field::attribute::compare_keys(&styled, &other), KeyOrder::Less);
}

fn value_of<'a>(merged: &'a [Attribute<AttributeValue>], name: &str) -> Option<&'a AttributeValue> {
    merged
        .iter()
        .find(|attribute| attribute.name == name)
        .map(|attribute| &attribute.value)
}

#[test]
fn merged_classes_join_weakest_first() {
    let merged = merge_attributes(vec![
        vec![text("class", "field"), text("id", "own")],
        vec![text("class", "field--compact")],
        vec![text("class", "caller"), text("id", "caller")],
    ]);
    assert_eq!(merged.len(), 2);
    assert_eq!(
        value_of(&merged, "class"),
        Some(&AttributeValue::Text(String::from("field field--compact caller")))
    );
    assert_eq!(
        value_of(&merged, "id"),
        Some(&AttributeValue::Text(String::from("caller")))
    );
}

#[test]
fn a_class_repeated_within_one_group_joins_too() {
    let merged = merge_attributes(vec![vec![text("class", "a"), text("class", "b")]]);
    assert_eq!(
        value_of(&merged, "class"),
        Some(&AttributeValue::Text(String::from("a b")))
    );
}

#[test]
fn a_class_that_is_not_text_replaces_the_earlier_value() {
    let merged = merge_attributes(vec![
        vec![text("class", "base")],
        vec![Attribute::new("class", AttributeValue::Bool(true), None, false)],
    ]);
    assert_eq!(value_of(&merged, "class"), Some(&AttributeValue::Bool(true)));

    let merged = merge_attributes(vec![
        vec![Attribute::new("class", AttributeValue::Handle(7), None, false)],
        vec![text("class", "caller")],
    ]);
    assert_eq!(
        value_of(&merged, "class"),
        Some(&AttributeValue::Text(String::from("caller")))
    );
}

#[test]
fn classes_in_another_namespace_join_separately() {
    let merged = merge_attributes(vec![
        vec![text("class", "plain"), Attribute::new("class", AttributeValue::Text(String::from("x")), Some("svg"), false)],
        vec![text("class", "more"), Attribute::new("class", AttributeValue::Text(String::from("y")), Some("svg"), false)],
    ]);
    assert_eq!(merged.len(), 2);
    assert_eq!(merged[0].value, AttributeValue::Text(String::from("plain more")));
    assert_eq!(merged[1].namespace, Some("svg"));
    assert_eq!(merged[1].value, AttributeValue::Text(String::from("x y")));
}

#[test]
fn handles_pass_through_a_merge_untouched() {
    let merged = merge_attributes(vec![
        vec![Attribute::new("onclick", AttributeValue::Handle(0), None, false)],
        vec![Attribute::new("tabindex", AttributeValue::Handle(1), None, false)],
    ]);
    assert_eq!(value_of(&merged, "onclick"), Some(&AttributeValue::Handle(0)));
    assert_eq!(value_of(&merged, "tabindex"), Some(&AttributeValue::Handle(1)));
}
