use serde::fields::MetaItem;
use serde::fields::StructField;
use serde::fields::default_value;
use serde::fields::field_rename;
use serde::fields::struct_field_strs;

fn serde_list(items: Vec<MetaItem>) -> MetaItem {
    MetaItem::List("serde".to_string(), items)
}

fn rename_pair(value: &str) -> MetaItem {
    MetaItem::NameValue("rename".to_string(), value.to_string())
}

fn named(name: &str, attrs: Vec<MetaItem>) -> StructField {
    StructField {
        name: Some(name.to_string()),
        attrs,
    }
}

fn positional(attrs: Vec<MetaItem>) -> StructField {
    StructField { name: None, attrs }
}

#[test]
fn test_field_rename_found() {
    let f = named("a", vec![serde_list(vec![rename_pair("x")])]);
    assert_eq!(field_rename(&f), Some("x".to_string()));
}

#[test]
fn test_field_rename_absent() {
    let f = named("a", vec![]);
    assert_eq!(field_rename(&f), None);
}

#[test]
fn test_field_rename_ignores_other_attributes() {
    let f = named(
        "a",
        vec![MetaItem::List(
            "other".to_string(),
            vec![rename_pair("x")],
        )],
    );
    assert_eq!(field_rename(&f), None);
}

#[test]
fn test_field_rename_last_pair_wins() {
    let f = named(
        "a",
        vec![serde_list(vec![rename_pair("first"), rename_pair("second")])],
    );
    assert_eq!(field_rename(&f), Some("second".to_string()));
}

#[test]
fn test_field_rename_only_first_serde_attribute_counts() {
    // The first serde attribute has no rename, so none applies, even though
    // a later serde attribute carries one.
    let f = named(
        "a",
        vec![
            serde_list(vec![MetaItem::Word("default".to_string())]),
            serde_list(vec![rename_pair("z")]),
        ],
    );
    assert_eq!(field_rename(&f), None);
}

#[test]
fn test_default_value_found() {
    let f = named(
        "a",
        vec![serde_list(vec![MetaItem::Word("default".to_string())])],
    );
    assert!(default_value(&f));
}

#[test]
fn test_default_value_in_second_attribute() {
    let f = named(
        "a",
        vec![
            serde_list(vec![rename_pair("x")]),
            serde_list(vec![MetaItem::Word("default".to_string())]),
        ],
    );
    assert!(default_value(&f));
}

#[test]
fn test_default_value_absent() {
    assert!(!default_value(&named("a", vec![])));
    // A default word outside a serde attribute does not count.
    let f = named(
        "a",
        vec![MetaItem::List(
            "other".to_string(),
            vec![MetaItem::Word("default".to_string())],
        )],
    );
    assert!(!default_value(&f));
    // A name-value pair named default is not the bare word.
    let f = named(
        "a",
        vec![serde_list(vec![MetaItem::NameValue(
            "default".to_string(),
            "x".to_string(),
        )])],
    );
    assert!(!default_value(&f));
}

#[test]
fn test_struct_field_strs_mixed() {
    let fields = vec![
        named("a", vec![]),
        named("b", vec![serde_list(vec![rename_pair("c")])]),
        positional(vec![serde_list(vec![rename_pair("d")])]),
    ];
    let strs = struct_field_strs(&fields);
    assert_eq!(
        strs,
        vec!["a".to_string(), "c".to_string(), "d".to_string()]
    );
}
