use mentat::cache::{group_rows, AttributeCacher, CacheAction};
use mentat::values::{Entid, TypedValue};

const BAR: Entid = 65536;
const BAZ: Entid = 65537;
const BAP: Entid = 65538;
const FIRST: Entid = 65539;
const SECOND: Entid = 65540;

/// The datoms of two entities, as the store gives them: by entity, and the
/// values of an entity in their order.
fn populate_db() -> Vec<(Entid, Entid, TypedValue)> {
    vec![
        (FIRST, BAR, TypedValue::Long(100)),
        (FIRST, BAZ, TypedValue::Boolean(false)),
        (FIRST, BAP, TypedValue::typed_string("buckle my shoe")),
        (FIRST, BAP, TypedValue::typed_string("one")),
        (FIRST, BAP, TypedValue::typed_string("two")),
        (SECOND, BAR, TypedValue::Long(200)),
        (SECOND, BAZ, TypedValue::Boolean(true)),
        (SECOND, BAP, TypedValue::typed_string("four")),
        (SECOND, BAP, TypedValue::typed_string("knock at my door")),
        (SECOND, BAP, TypedValue::typed_string("three")),
    ]
}

fn rows(db: &Vec<(Entid, Entid, TypedValue)>, attribute: Entid) -> Vec<(Entid, TypedValue)> {
    db.iter().filter(|d| d.1 == attribute).map(|d| (d.0, d.2.clone())).collect()
}

fn assert_values_present_for_attribute(
    attribute_cache: &mut AttributeCacher,
    attribute: Entid,
    values: Vec<Vec<TypedValue>>,
) {
    let cached_values: Vec<Vec<TypedValue>> = attribute_cache
        .get(&attribute)
        .expect("Expected cached values")
        .iter()
        .map(|entry| entry.1.clone())
        .collect();
    assert_eq!(cached_values, values);
}

#[test]
fn test_add_to_cache() {
    let db = populate_db();
    let mut attribute_cache = AttributeCacher::new();
    attribute_cache.register_attribute(BAR, rows(&db, BAR));
    assert_values_present_for_attribute(
        &mut attribute_cache,
        BAR,
        vec![vec![TypedValue::Long(100)], vec![TypedValue::Long(200)]],
    );
}

#[test]
fn test_add_attribute_already_in_cache() {
    let db = populate_db();
    let mut attribute_cache = AttributeCacher::new();

    attribute_cache.register_attribute(BAR, rows(&db, BAR));
    assert_values_present_for_attribute(
        &mut attribute_cache,
        BAR,
        vec![vec![TypedValue::Long(100)], vec![TypedValue::Long(200)]],
    );
    attribute_cache.register_attribute(BAR, rows(&db, BAR));
    assert_values_present_for_attribute(
        &mut attribute_cache,
        BAR,
        vec![vec![TypedValue::Long(100)], vec![TypedValue::Long(200)]],
    );
}

#[test]
fn test_remove_from_cache() {
    let db = populate_db();
    let mut attribute_cache = AttributeCacher::new();

    attribute_cache.register_attribute(BAR, rows(&db, BAR));
    assert_values_present_for_attribute(
        &mut attribute_cache,
        BAR,
        vec![vec![TypedValue::Long(100)], vec![TypedValue::Long(200)]],
    );
    attribute_cache.register_attribute(BAZ, rows(&db, BAZ));
    assert_values_present_for_attribute(
        &mut attribute_cache,
        BAZ,
        vec![vec![TypedValue::Boolean(false)], vec![TypedValue::Boolean(true)]],
    );

    // test that we can remove an item from cache
    attribute_cache.deregister_attribute(&BAZ).expect("No errors on remove from cache");
    assert_eq!(attribute_cache.get(&BAZ), None);
}

#[test]
fn test_remove_attribute_not_in_cache() {
    let mut attribute_cache = AttributeCacher::new();
    assert_eq!(None, attribute_cache.deregister_attribute(&BAZ));
}

#[test]
fn test_fetch_attribute_value_for_entid() {
    let db = populate_db();
    let mut attribute_cache = AttributeCacher::new();

    attribute_cache.register_attribute(BAR, rows(&db, BAR));
    let val = attribute_cache.get_value_for_entid(&BAR, &FIRST).expect("Expected value");
    assert_eq!(*val, TypedValue::Long(100));
}

#[test]
fn test_fetch_attribute_values_for_entid() {
    let db = populate_db();
    let mut attribute_cache = AttributeCacher::new();

    attribute_cache.register_attribute(BAP, rows(&db, BAP));
    let val = attribute_cache.get_values_for_entid(&BAP, &FIRST).expect("Expected value");
    assert_eq!(
        *val,
        vec![
            TypedValue::typed_string("buckle my shoe"),
            TypedValue::typed_string("one"),
            TypedValue::typed_string("two"),
        ]
    );
}

#[test]
fn attributes_and_entities_are_kept_in_the_order_of_their_ids() {
    let mut cache = AttributeCacher::new();
    cache.register_attribute(
        BAP,
        vec![
            (SECOND, TypedValue::Long(3)),
            (FIRST, TypedValue::Long(1)),
            (SECOND, TypedValue::Long(4)),
            (FIRST, TypedValue::Long(2)),
        ],
    );
    cache.register_attribute(BAR, vec![(FIRST, TypedValue::Long(9))]);
    assert_eq!(cache.a_e_vs_cache.iter().map(|entry| entry.0).collect::<Vec<_>>(), vec![BAR, BAP]);
    assert_eq!(
        cache.get(&BAP),
        Some(&vec![
            (FIRST, vec![TypedValue::Long(1), TypedValue::Long(2)]),
            (SECOND, vec![TypedValue::Long(3), TypedValue::Long(4)]),
        ])
    );
    assert_eq!(cache.get_values_for_entid(&BAP, &BAR), None);
    assert_eq!(cache.get_values_for_entid(&BAZ, &FIRST), None);
    assert_eq!(cache.get_value_for_entid(&BAR, &FIRST), Some(&TypedValue::Long(9)));
    assert_eq!(cache.get_value_for_entid(&BAR, &SECOND), None);
    // Registering again replaces what was cached.
    cache.register_attribute(BAP, Vec::new());
    assert_eq!(cache.get(&BAP), Some(&Vec::new()));
    assert_eq!(cache.deregister_attribute(&BAR), Some(vec![(FIRST, vec![TypedValue::Long(9)])]));
    assert_eq!(cache.get(&BAR), None);
    assert_eq!(group_rows(Vec::new()), Vec::new());
    assert_ne!(CacheAction::Register, CacheAction::Deregister);
}
