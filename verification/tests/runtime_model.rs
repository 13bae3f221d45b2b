use diesel_factories::runtime::{
    insert_factory, resolve, AssociationSlot, AssociationValue, ColumnData, ColumnValue,
    FactoryValue, Store,
};

fn col(name: &str, data: ColumnData) -> ColumnValue {
    ColumnValue { column: name.to_string(), data }
}

fn user_factory() -> FactoryValue {
    FactoryValue {
        fields: vec![
            col("name", ColumnData::Text("Bob".to_string())),
            col("age", ColumnData::Integer(30)),
        ],
        associations: vec![],
    }
}

fn country_factory() -> FactoryValue {
    FactoryValue {
        fields: vec![col("code", ColumnData::Text("SE".to_string()))],
        associations: vec![],
    }
}

fn text_of(c: &ColumnValue) -> &str {
    match &c.data {
        ColumnData::Text(s) => s.as_str(),
        _ => panic!("expected a text column"),
    }
}

fn int_of(c: &ColumnValue) -> i64 {
    match c.data {
        ColumnData::Integer(n) => n,
        _ => panic!("expected an integer column"),
    }
}

fn key_of(c: &ColumnValue) -> i64 {
    match c.data {
        ColumnData::ForeignKey(k) => k,
        _ => panic!("expected a foreign-key column"),
    }
}

#[test]
fn override_then_insert_round_trips() {
    let mut store = Store::new();
    let f = user_factory().set_field("name", ColumnData::Text("Alice".to_string()));
    let record = insert_factory(f, &mut store);
    assert_eq!(record.key, 1);
    assert_eq!(record.columns.len(), 2);
    assert_eq!(record.columns[0].column, "name");
    assert_eq!(text_of(&record.columns[0]), "Alice");
    assert_eq!(record.columns[1].column, "age");
    assert_eq!(int_of(&record.columns[1]), 30);
    assert_eq!(store.rows.len(), 1);
}

#[test]
fn defaults_survive_when_untouched() {
    let mut store = Store::new();
    let record = insert_factory(user_factory(), &mut store);
    assert_eq!(text_of(&record.columns[0]), "Bob");
    assert_eq!(int_of(&record.columns[1]), 30);
}

#[test]
fn last_write_wins() {
    let f = user_factory()
        .set_field("name", ColumnData::Text("Carol".to_string()))
        .set_field("name", ColumnData::Text("Dave".to_string()));
    assert_eq!(text_of(&f.fields[0]), "Dave");
    assert_eq!(int_of(&f.fields[1]), 30);
}

#[test]
fn setter_for_unknown_field_changes_nothing() {
    let f = user_factory().set_field("nickname", ColumnData::Text("x".to_string()));
    assert_eq!(text_of(&f.fields[0]), "Bob");
    assert_eq!(int_of(&f.fields[1]), 30);
    assert_eq!(f.fields.len(), 2);
}

#[test]
fn existing_association_triggers_no_insert() {
    let mut store = Store::new();
    let f = FactoryValue {
        fields: vec![col("name", ColumnData::Text("Bob".to_string()))],
        associations: vec![AssociationSlot {
            column: "country_id".to_string(),
            assoc: AssociationValue::Existing(7),
        }],
    };
    let record = insert_factory(f, &mut store);
    assert_eq!(store.rows.len(), 1, "only the owning record is inserted");
    assert_eq!(record.columns.len(), 2);
    assert_eq!(record.columns[1].column, "country_id");
    assert_eq!(key_of(&record.columns[1]), 7);
}

#[test]
fn unbuilt_association_inserts_default_first() {
    let mut store = Store::new();
    let f = FactoryValue {
        fields: vec![col("name", ColumnData::Text("Bob".to_string()))],
        associations: vec![AssociationSlot {
            column: "country_id".to_string(),
            assoc: AssociationValue::Unbuilt(Box::new(country_factory())),
        }],
    };
    let record = insert_factory(f, &mut store);
    assert_eq!(store.rows.len(), 2);
    assert_eq!(store.rows[0].key, 1, "the associated record is inserted first");
    assert_eq!(text_of(&store.rows[0].columns[0]), "SE");
    assert_eq!(record.key, 2);
    assert_eq!(key_of(&record.columns[1]), 1, "the new key becomes the foreign key");
}

#[test]
fn pending_association_inserts_configured_factory() {
    let mut store = Store::new();
    let configured =
        country_factory().set_field("code", ColumnData::Text("NO".to_string()));
    let f = FactoryValue {
        fields: vec![col("name", ColumnData::Text("Bob".to_string()))],
        associations: vec![AssociationSlot {
            column: "country_id".to_string(),
            assoc: AssociationValue::Pending(Box::new(configured)),
        }],
    };
    let record = insert_factory(f, &mut store);
    assert_eq!(store.rows.len(), 2);
    assert_eq!(text_of(&store.rows[0].columns[0]), "NO");
    assert_eq!(key_of(&record.columns[1]), store.rows[0].key);
}

#[test]
fn nested_associations_insert_transitively() {
    let mut store = Store::new();
    let city = FactoryValue {
        fields: vec![col("city", ColumnData::Text("Oslo".to_string()))],
        associations: vec![AssociationSlot {
            column: "country_id".to_string(),
            assoc: AssociationValue::Unbuilt(Box::new(country_factory())),
        }],
    };
    let user = FactoryValue {
        fields: vec![col("name", ColumnData::Text("Bob".to_string()))],
        associations: vec![AssociationSlot {
            column: "city_id".to_string(),
            assoc: AssociationValue::Pending(Box::new(city)),
        }],
    };
    let record = insert_factory(user, &mut store);
    assert_eq!(store.rows.len(), 3);
    assert_eq!(text_of(&store.rows[0].columns[0]), "SE", "deepest record first");
    assert_eq!(text_of(&store.rows[1].columns[0]), "Oslo");
    assert_eq!(key_of(&store.rows[1].columns[1]), 1);
    assert_eq!(record.key, 3);
    assert_eq!(key_of(&record.columns[1]), 2);
}

#[test]
fn resolve_existing_returns_key_without_insert() {
    let mut store = Store::new();
    let k = resolve(AssociationValue::Existing(42), &mut store);
    assert_eq!(k, 42);
    assert_eq!(store.rows.len(), 0);
    assert_eq!(store.next_key, 1);
}

#[test]
fn resolve_unbuilt_inserts_exactly_one() {
    let mut store = Store::new();
    let k = resolve(
        AssociationValue::Unbuilt(Box::new(country_factory())),
        &mut store,
    );
    assert_eq!(store.rows.len(), 1);
    assert_eq!(k, store.rows[0].key);
}

#[test]
fn set_association_replaces_slot() {
    let mut store = Store::new();
    let f = FactoryValue {
        fields: vec![],
        associations: vec![AssociationSlot {
            column: "country_id".to_string(),
            assoc: AssociationValue::Unbuilt(Box::new(country_factory())),
        }],
    };
    let f = f.set_association("country_id", AssociationValue::Existing(9));
    let record = insert_factory(f, &mut store);
    assert_eq!(store.rows.len(), 1, "the replaced association inserts nothing");
    assert_eq!(key_of(&record.columns[0]), 9);
}

#[test]
fn generated_keys_are_sequential() {
    let mut store = Store::new();
    let a = store.insert_returning(vec![col("n", ColumnData::Integer(1))]);
    let b = store.insert_returning(vec![col("n", ColumnData::Integer(2))]);
    assert_eq!(a.key, 1);
    assert_eq!(b.key, 2);
    assert_eq!(store.rows.len(), 2);
    assert_eq!(int_of(&store.rows[1].columns[0]), 2);
}
