//! Tests of the storage adapter: key layout, prefix boundaries, scan order
//! and overwriting.

use typed_store::insert::insert as insert_row;
use typed_store::{
    empty_where, insert_table, lookup_table, matches_prefix, parse_table, select, ColumnName,
    Insert, InsertValue, NameMap, Row, ScalarValue, Select, SelectColumns, Store, Table, TableName,
};

fn cn(name: &str) -> ColumnName {
    ColumnName(name.to_string())
}

fn row(pairs: &[(&str, ScalarValue)]) -> Row {
    let mut values: Row = NameMap::new();
    for (name, value) in pairs {
        values.insert(cn(name), value.dup());
    }
    values
}

fn user_table(store: &mut Store, name: &str) -> Table {
    let text = format!("type {} {{ age: Int, name: String }}", name);
    let (_, table) = parse_table(&text).expect("parse_table");
    insert_table(store, &table);
    table
}

fn put_user(store: &mut Store, table: &str, key: i32, age: i32, name: &str) {
    let values = row(&[
        ("age", ScalarValue::Int(age)),
        ("name", ScalarValue::String(name.to_string())),
    ]);
    insert_row(
        store,
        &Insert {
            table: TableName(table.to_string()),
            key,
            value: InsertValue::Single { values },
        },
    )
    .expect("insert test data failure");
}

fn names_of(store: &Store, table: &str) -> Vec<(usize, Row)> {
    let query = Select {
        table: TableName(table.to_string()),
        columns: SelectColumns::SelectColumns { columns: vec![cn("name")] },
        filter: empty_where(),
    };
    select(store, query).expect("select")
}

#[test]
fn lookup_of_an_unknown_table_is_none() {
    let store = Store::new();
    assert_eq!(lookup_table(&store, &TableName("user".to_string())), None);
}

#[test]
fn lookup_returns_the_stored_schema() {
    let mut store = Store::new();
    let table = user_table(&mut store, "user");
    assert_eq!(lookup_table(&store, &TableName("user".to_string())), Some(table));
}

#[test]
fn select_from_an_empty_table_returns_nothing() {
    let mut store = Store::new();
    user_table(&mut store, "user");
    assert_eq!(names_of(&store, "user"), vec![]);
}

#[test]
fn scan_order_is_lexical_key_order() {
    let mut store = Store::new();
    user_table(&mut store, "user");
    put_user(&mut store, "user", 2, 30, "second");
    put_user(&mut store, "user", 10, 40, "tenth");
    // keys are compared as text, so "data_user_10" scans before "data_user_2"
    assert_eq!(
        names_of(&store, "user"),
        vec![
            (1, row(&[("name", ScalarValue::String("tenth".to_string()))])),
            (2, row(&[("name", ScalarValue::String("second".to_string()))])),
        ]
    );
}

#[test]
fn inserting_under_the_same_key_overwrites_the_row() {
    let mut store = Store::new();
    user_table(&mut store, "user");
    put_user(&mut store, "user", 1, 20, "before");
    put_user(&mut store, "user", 1, 21, "after");
    assert_eq!(
        names_of(&store, "user"),
        vec![(1, row(&[("name", ScalarValue::String("after".to_string()))]))]
    );
}

#[test]
fn a_negative_key_stores_and_scans() {
    let mut store = Store::new();
    user_table(&mut store, "user");
    put_user(&mut store, "user", -7, 20, "below");
    assert_eq!(
        names_of(&store, "user"),
        vec![(1, row(&[("name", ScalarValue::String("below".to_string()))]))]
    );
}

#[test]
fn redefining_a_table_replaces_its_schema() {
    let mut store = Store::new();
    user_table(&mut store, "user");
    let (_, wider) = parse_table("type user { age: Int, name: String, nice: Bool }")
        .expect("parse_table");
    insert_table(&mut store, &wider);
    assert_eq!(lookup_table(&store, &TableName("user".to_string())), Some(wider));
}

#[test]
fn tables_with_a_common_name_prefix_stay_apart() {
    let mut store = Store::new();
    user_table(&mut store, "user");
    user_table(&mut store, "user2");
    put_user(&mut store, "user", 1, 20, "plain");
    put_user(&mut store, "user2", 1, 30, "other");
    assert_eq!(
        names_of(&store, "user"),
        vec![(1, row(&[("name", ScalarValue::String("plain".to_string()))]))]
    );
    assert_eq!(
        names_of(&store, "user2"),
        vec![(1, row(&[("name", ScalarValue::String("other".to_string()))]))]
    );
}

#[test]
fn matches_prefix_demands_a_proper_extension() {
    assert!(matches_prefix("data_user_", "data_user_1".as_bytes()));
    assert!(!matches_prefix("data_user_", "data_user_".as_bytes()));
    assert!(!matches_prefix("data_user_", "data_user".as_bytes()));
    assert!(!matches_prefix("data_user_", "data_uses_1".as_bytes()));
}
