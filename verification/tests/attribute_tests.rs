//! Tests for attribute data, metadata, the attribute store and attribute
//! set tables. Values are fixed-point thousandths: 100.0 is written 100000.

use gameplay_ability_system::attributes::AttributeData;
use gameplay_ability_system::attributes::AttributeMetadata;
use gameplay_ability_system::attributes::AttributeName;
use gameplay_ability_system::attributes::AttributeSetDefinition;
use gameplay_ability_system::attributes::AttributeStore;

#[test]
fn test_attribute_data_new() {
    let attr = AttributeData::new(100000);
    assert_eq!(attr.base_value, 100000);
    assert_eq!(attr.current_value, 100000);
}

#[test]
fn test_attribute_data_set_base_value() {
    let mut attr = AttributeData::new(100000);
    attr.set_base_value(150000);
    assert_eq!(attr.base_value, 150000);
    assert_eq!(attr.current_value, 150000);
}

#[test]
fn test_attribute_metadata_clamp() {
    let metadata = AttributeMetadata::new("Health").with_min(0).with_max(100000);

    assert_eq!(metadata.clamp(-10000), 0);
    assert_eq!(metadata.clamp(50000), 50000);
    assert_eq!(metadata.clamp(150000), 100000);
}

#[test]
fn test_attribute_metadata_no_constraints() {
    let metadata = AttributeMetadata::new("Damage");
    assert_eq!(metadata.clamp(-100000), -100000);
    assert_eq!(metadata.clamp(1000000), 1000000);
}

#[test]
fn test_clamp_attributes_system() {
    let mut store = AttributeStore::new();
    let metadata = AttributeMetadata::new("Health").with_min(0).with_max(100000);
    store.create(1, "Health", 150000, Some(metadata));

    store.clamp_all();

    assert_eq!(store.get_current(1, "Health"), Some(100000));
    assert_eq!(store.entries[0].data.base_value, 100000);
}

#[test]
fn test_clamp_all_is_idempotent() {
    let mut store = AttributeStore::new();
    let metadata = AttributeMetadata::new("Health").with_min(0).with_max(100000);
    store.create(1, "Health", 150000, Some(metadata));
    store.create(1, "Mana", -5000, Some(AttributeMetadata::new("Mana").with_min(0)));

    store.clamp_all();
    let health_once = store.get_current(1, "Health");
    let mana_once = store.get_current(1, "Mana");
    store.clamp_all();

    assert_eq!(store.get_current(1, "Health"), health_once);
    assert_eq!(store.get_current(1, "Mana"), mana_once);
    assert_eq!(mana_once, Some(0));
}

#[test]
fn test_attribute_set_definition() {
    let set = test_attributes();
    let mut store = AttributeStore::new();
    let created = set.create_attributes(&mut store, 7);

    assert_eq!(created, 2);
}

#[test]
fn test_attribute_names() {
    let set = test_attributes();
    let names = set.attribute_names();
    assert_eq!(names, vec!["Health".to_string(), "Mana".to_string()]);
}

#[test]
fn test_default_values() {
    let set = test_attributes();
    assert_eq!(set.default_value("Health"), 100000);
    assert_eq!(set.default_value("Mana"), 50000);
    assert_eq!(set.default_value("Unknown"), 0);
}

#[test]
fn test_set_base_clamps() {
    let mut store = AttributeStore::new();
    let metadata = AttributeMetadata::new("Health").with_min(0).with_max(100000);
    store.create(1, "Health", 100000, Some(metadata));

    assert!(store.set_base(1, "Health", 250000));
    assert_eq!(store.get_current(1, "Health"), Some(100000));
    assert!(!store.set_base(2, "Health", 10000));
}

#[test]
fn test_attribute_name_round_trip() {
    let name = AttributeName::new("Stamina");
    assert_eq!(name.as_str(), "Stamina");
}

#[test]
fn test_find_attribute_by_name() {
    let mut store = AttributeStore::new();
    store.create(1, "Health", 100000, None);
    store.create(2, "Health", 80000, None);

    let found = store.find_attribute_by_name(2, "Health");
    assert!(found.is_some());
    let (_, data) = found.unwrap();
    assert_eq!(data.current_value, 80000);
    assert!(store.find_attribute_by_name(3, "Health").is_none());
}

fn test_attributes() -> AttributeSetDefinition {
    AttributeSetDefinition::new()
        .define(
            "Health",
            Some(AttributeMetadata::new("Health").with_min(0).with_max(100000)),
            100000,
        )
        .define("Mana", Some(AttributeMetadata::new("Mana").with_min(0)), 50000)
}
