//! End-to-end tests of SELECT over the store: plain tables, tagged unions,
//! WHERE filters, constructor restrictions and nullable projections.

use typed_store::insert::insert as insert_row;
use typed_store::{
    and, empty_where, equals, insert_table, parse_select, parse_table, select, ColumnName,
    Constructor, Insert, InsertValue, NameMap, Row, ScalarValue, Select, SelectColumns,
    SelectError, Store, TableName, TypeError,
};

fn cn(name: &str) -> ColumnName {
    ColumnName(name.to_string())
}

fn row(pairs: &[(&str, ScalarValue)]) -> Row {
    let mut values: Row = NameMap::new();
    for (name, value) in pairs {
        values.insert(cn(name), value.dup());
    }
    values
}

fn insert_user_data(store: &mut Store) {
    let (_, user) =
        parse_table("type user { age: Int, nice: Bool, name: String }").expect("parse_table");
    insert_table(store, &user);

    let rows = [
        (1, 27, false, "Egg"),
        (2, 100, true, "Horse"),
        (3, 46, false, "Log"),
    ];
    for (key, age, nice, name) in rows {
        let values = row(&[
            ("age", ScalarValue::Int(age)),
            ("nice", ScalarValue::Bool(nice)),
            ("name", ScalarValue::String(name.to_string())),
        ]);
        insert_row(
            store,
            &Insert {
                table: TableName("user".to_string()),
                key,
                value: InsertValue::Single { values },
            },
        )
        .expect("insert test data failure");
    }
}

fn insert_pet_data(store: &mut Store) {
    let (_, pet) = parse_table(
        "type pet { Cat { age: Int, name: String }, Dog { age: Int, name: String, likes_stick: Bool } }",
    )
    .expect("parse_table");
    insert_table(store, &pet);

    let cat_row = row(&[
        ("age", ScalarValue::Int(27)),
        ("name", ScalarValue::String("Mr Cat".to_string())),
    ]);
    insert_row(
        store,
        &Insert {
            table: TableName("pet".to_string()),
            key: 1,
            value: InsertValue::Multiple {
                constructor: Constructor("Cat".to_string()),
                values: cat_row,
            },
        },
    )
    .expect("insert test data failure");

    let dog_row = row(&[
        ("age", ScalarValue::Int(21)),
        ("name", ScalarValue::String("Mr Dog".to_string())),
        ("likes_stick", ScalarValue::Bool(true)),
    ]);
    insert_row(
        store,
        &Insert {
            table: TableName("pet".to_string()),
            key: 2,
            value: InsertValue::Multiple {
                constructor: Constructor("Dog".to_string()),
                values: dog_row,
            },
        },
    )
    .expect("insert test data failure");
}

fn insert_test_data(store: &mut Store) {
    insert_user_data(store);
    insert_pet_data(store);
}

fn test_store() -> Store {
    let mut store = Store::new();
    insert_test_data(&mut store);
    store
}

fn name_query(table: &str) -> Select {
    Select {
        table: TableName(table.to_string()),
        columns: SelectColumns::SelectColumns { columns: vec![cn("name")] },
        filter: empty_where(),
    }
}

#[test]
fn test_missing_table() {
    let store = test_store();
    assert_eq!(
        select(&store, name_query("missing")),
        Err(SelectError::TableNotFound(TableName("missing".to_string())))
    );
}

#[test]
fn query_test_missing_table() {
    let store = test_store();
    assert_eq!(
        select(&store, name_query("missing")),
        Err(SelectError::TableNotFound(TableName("missing".to_string())))
    );
}

#[test]
fn main_test_missing_table() {
    let store = test_store();
    assert_eq!(
        select(&store, name_query("missing")),
        Err(SelectError::TableNotFound(TableName("missing".to_string())))
    );
}

#[test]
fn select_test_missing_table() {
    let store = test_store();
    let (_, query) = parse_select("select name from missing").expect("parse_select");
    assert_eq!(
        select(&store, query),
        Err(SelectError::TableNotFound(TableName("missing".to_string())))
    );
}

fn missing_column_error() -> Result<Vec<(usize, Row)>, SelectError> {
    Err(SelectError::TypeError(TypeError::ColumnNotFound {
        column_name: cn("missing"),
        table_name: TableName("user".to_string()),
    }))
}

#[test]
fn test_missing_column() {
    let store = test_store();
    let query = Select {
        table: TableName("user".to_string()),
        columns: SelectColumns::SelectColumns { columns: vec![cn("missing")] },
        filter: empty_where(),
    };
    assert_eq!(select(&store, query), missing_column_error());
}

#[test]
fn query_test_missing_column() {
    let store = test_store();
    let query = Select {
        table: TableName("user".to_string()),
        columns: SelectColumns::SelectColumns { columns: vec![cn("missing")] },
        filter: empty_where(),
    };
    assert_eq!(select(&store, query), missing_column_error());
}

#[test]
fn main_test_missing_column() {
    let store = test_store();
    let query = Select {
        table: TableName("user".to_string()),
        columns: SelectColumns::SelectColumns { columns: vec![cn("missing")] },
        filter: empty_where(),
    };
    assert_eq!(select(&store, query), missing_column_error());
}

#[test]
fn select_test_missing_column() {
    let store = test_store();
    let (_, query) = parse_select("select missing from user").expect("parse_select");
    assert_eq!(select(&store, query), missing_column_error());
}

#[test]
fn test_missing_column_in_where() {
    let store = test_store();
    let query = Select {
        table: TableName("user".to_string()),
        columns: SelectColumns::SelectColumns { columns: vec![cn("name")] },
        filter: equals(cn("missing"), ScalarValue::Bool(true)),
    };
    assert_eq!(select(&store, query), missing_column_error());
}

#[test]
fn query_test_missing_column_in_where() {
    let store = test_store();
    let query = Select {
        table: TableName("user".to_string()),
        columns: SelectColumns::SelectColumns { columns: vec![cn("name")] },
        filter: equals(cn("missing"), ScalarValue::Bool(true)),
    };
    assert_eq!(select(&store, query), missing_column_error());
}

#[test]
fn main_test_missing_column_in_where() {
    let store = test_store();
    let query = Select {
        table: TableName("user".to_string()),
        columns: SelectColumns::SelectColumns { columns: vec![] },
        filter: equals(cn("missing"), ScalarValue::Bool(true)),
    };
    assert_eq!(select(&store, query), missing_column_error());
}

#[test]
fn select_test_missing_column_in_where() {
    let store = test_store();
    let (_, query) = parse_select("select name from user where missing = true")
        .expect("parse_select");
    assert_eq!(select(&store, query), missing_column_error());
}

fn all_users() -> Vec<(usize, Row)> {
    vec![
        (1, row(&[("name", ScalarValue::String("Egg".to_string()))])),
        (2, row(&[("name", ScalarValue::String("Horse".to_string()))])),
        (3, row(&[("name", ScalarValue::String("Log".to_string()))])),
    ]
}

#[test]
fn test_get_users() {
    let store = test_store();
    assert_eq!(select(&store, name_query("user")), Ok(all_users()));
}

#[test]
fn query_test_get_users() {
    let store = test_store();
    assert_eq!(select(&store, name_query("user")), Ok(all_users()));
}

#[test]
fn main_test_get_users() {
    let store = test_store();
    assert_eq!(select(&store, name_query("user")), Ok(all_users()));
}

#[test]
fn select_test_get_users() {
    let store = test_store();
    let (_, query) = parse_select("select name from user").expect("parse_select");
    assert_eq!(select(&store, query), Ok(all_users()));
}

fn nice_centenarians() -> Select {
    Select {
        table: TableName("user".to_string()),
        columns: SelectColumns::SelectColumns { columns: vec![cn("name")] },
        filter: and(
            equals(cn("nice"), ScalarValue::Bool(true)),
            equals(cn("age"), ScalarValue::Int(100)),
        ),
    }
}

fn only_horse() -> Vec<(usize, Row)> {
    vec![(2, row(&[("name", ScalarValue::String("Horse".to_string()))]))]
}

#[test]
fn test_get_users_where() {
    let store = test_store();
    assert_eq!(select(&store, nice_centenarians()), Ok(only_horse()));
}

#[test]
fn query_test_get_users_where() {
    let store = test_store();
    assert_eq!(select(&store, nice_centenarians()), Ok(only_horse()));
}

#[test]
fn main_test_get_users_where() {
    let store = test_store();
    assert_eq!(select(&store, nice_centenarians()), Ok(only_horse()));
}

#[test]
fn select_test_get_users_where() {
    let store = test_store();
    let (_, query) = parse_select("select name from user where nice = true && age = 100")
        .expect("parse_select");
    assert_eq!(select(&store, query), Ok(only_horse()));
}

fn cats_query() -> Select {
    Select {
        table: TableName("pet".to_string()),
        columns: SelectColumns::SelectConstructor {
            constructor: Constructor("Cat".to_string()),
            columns: vec![cn("age"), cn("name")],
        },
        filter: empty_where(),
    }
}

fn only_cat() -> Vec<(usize, Row)> {
    vec![(
        1,
        row(&[
            ("age", ScalarValue::Int(27)),
            ("name", ScalarValue::String("Mr Cat".to_string())),
        ]),
    )]
}

#[test]
fn test_get_cats() {
    let store = test_store();
    assert_eq!(select(&store, cats_query()), Ok(only_cat()));
}

#[test]
fn query_test_get_cats() {
    let store = test_store();
    assert_eq!(select(&store, cats_query()), Ok(only_cat()));
}

#[test]
fn select_test_get_cats() {
    let store = test_store();
    let (_, query) = parse_select("select Cat { age, name } from pet").expect("parse_select");
    assert_eq!(select(&store, query), Ok(only_cat()));
}

fn pets_query() -> Select {
    Select {
        table: TableName("pet".to_string()),
        columns: SelectColumns::SelectColumns { columns: vec![cn("age"), cn("name")] },
        filter: empty_where(),
    }
}

fn both_pets() -> Vec<(usize, Row)> {
    vec![
        (
            1,
            row(&[
                ("age", ScalarValue::Int(27)),
                ("name", ScalarValue::String("Mr Cat".to_string())),
            ]),
        ),
        (
            2,
            row(&[
                ("age", ScalarValue::Int(21)),
                ("name", ScalarValue::String("Mr Dog".to_string())),
            ]),
        ),
    ]
}

#[test]
fn test_get_pets() {
    let store = test_store();
    assert_eq!(select(&store, pets_query()), Ok(both_pets()));
}

#[test]
fn query_test_get_pets() {
    let store = test_store();
    assert_eq!(select(&store, pets_query()), Ok(both_pets()));
}

#[test]
fn select_test_get_pets() {
    let store = test_store();
    let (_, query) = parse_select("select age, name from pet").expect("parse_select");
    assert_eq!(select(&store, query), Ok(both_pets()));
}

fn pets_with_stick_query() -> Select {
    Select {
        table: TableName("pet".to_string()),
        columns: SelectColumns::SelectColumns {
            columns: vec![cn("age"), cn("name"), cn("likes_stick")],
        },
        filter: empty_where(),
    }
}

fn both_pets_with_nullable() -> Vec<(usize, Row)> {
    vec![
        (
            1,
            row(&[
                ("age", ScalarValue::Int(27)),
                ("name", ScalarValue::String("Mr Cat".to_string())),
                ("likes_stick", ScalarValue::Null),
            ]),
        ),
        (
            2,
            row(&[
                ("age", ScalarValue::Int(21)),
                ("name", ScalarValue::String("Mr Dog".to_string())),
                ("likes_stick", ScalarValue::Bool(true)),
            ]),
        ),
    ]
}

#[test]
fn test_get_pets_with_nullable() {
    let store = test_store();
    assert_eq!(select(&store, pets_with_stick_query()), Ok(both_pets_with_nullable()));
}

#[test]
fn query_test_get_pets_with_nullable() {
    let store = test_store();
    assert_eq!(select(&store, pets_with_stick_query()), Ok(both_pets_with_nullable()));
}

#[test]
fn select_test_get_pets_with_nullable() {
    let store = test_store();
    let (_, query) =
        parse_select("select age, name, likes_stick from pet").expect("parse select");
    assert_eq!(select(&store, query), Ok(both_pets_with_nullable()));
}
