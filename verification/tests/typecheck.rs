//! Tests of the type-checker: column unification, scalar validation and
//! INSERT validation.

use typed_store::{
    typecheck_column, typecheck_insert, typecheck_scalar, typecheck_select, ColumnName, Columns,
    Constructor, Insert, InsertValue, NameMap, ScalarType, ScalarValue, Select, SelectColumns,
    Table, TableName, Type, TypeError,
};

fn single_table(name: &str, cols: &[(&str, ScalarType)]) -> Table {
    let mut columns: NameMap<ColumnName, ScalarType> = NameMap::new();
    for (c, ty) in cols {
        columns.insert(ColumnName(c.to_string()), *ty);
    }
    Table {
        name: TableName(name.to_string()),
        columns: Columns::SingleConstructor(columns),
    }
}

fn multi_table(name: &str, variants: &[(&str, &[(&str, ScalarType)])]) -> Table {
    let mut constructors: NameMap<Constructor, NameMap<ColumnName, ScalarType>> = NameMap::new();
    for (ctor, cols) in variants {
        let mut columns: NameMap<ColumnName, ScalarType> = NameMap::new();
        for (c, ty) in *cols {
            columns.insert(ColumnName(c.to_string()), *ty);
        }
        constructors.insert(Constructor(ctor.to_string()), columns);
    }
    Table {
        name: TableName(name.to_string()),
        columns: Columns::MultipleConstructors(constructors),
    }
}

#[test]
fn single_column_is_non_null() {
    let table = single_table("User", &[("age", ScalarType::Int)]);

    assert_eq!(
        typecheck_column(&table, &ColumnName("age".to_string())),
        Ok((
            ColumnName("age".to_string()),
            Type::ScalarType(ScalarType::Int)
        ))
    );
}

#[test]
fn typecheck_single_column_is_non_null() {
    let table = single_table("User", &[("age", ScalarType::Int)]);

    assert_eq!(
        typecheck_column(&table, &ColumnName("age".to_string())),
        Ok((
            ColumnName("age".to_string()),
            Type::ScalarType(ScalarType::Int)
        ))
    );
}

#[test]
fn multiple_columns_found_null() {
    let table = multi_table("User", &[("User", &[]), ("Admin", &[])]);

    assert_eq!(
        typecheck_column(&table, &ColumnName("age".to_string())),
        Err(TypeError::ColumnNotFound {
            table_name: TableName("User".to_string()),
            column_name: ColumnName("age".to_string())
        })
    );
}

#[test]
fn typecheck_multiple_columns_found_null() {
    let table = multi_table("User", &[("User", &[]), ("Admin", &[])]);

    assert_eq!(
        typecheck_column(&table, &ColumnName("age".to_string())),
        Err(TypeError::ColumnNotFound {
            table_name: TableName("User".to_string()),
            column_name: ColumnName("age".to_string())
        })
    );
}

#[test]
fn multiple_columns_non_null_in_all() {
    let table = multi_table(
        "User",
        &[
            ("User", &[("age", ScalarType::Int)]),
            ("Admin", &[("age", ScalarType::Int)]),
        ],
    );

    assert_eq!(
        typecheck_column(&table, &ColumnName("age".to_string())),
        Ok((
            ColumnName("age".to_string()),
            Type::ScalarType(ScalarType::Int)
        ))
    );
}

#[test]
fn typecheck_multiple_columns_non_null_in_all() {
    let table = multi_table(
        "User",
        &[
            ("User", &[("age", ScalarType::Int)]),
            ("Admin", &[("age", ScalarType::Int)]),
        ],
    );

    assert_eq!(
        typecheck_column(&table, &ColumnName("age".to_string())),
        Ok((
            ColumnName("age".to_string()),
            Type::ScalarType(ScalarType::Int)
        ))
    );
}

#[test]
fn mismatched_columns() {
    let table = multi_table(
        "User",
        &[
            ("User", &[("age", ScalarType::Int)]),
            ("Admin", &[("age", ScalarType::String)]),
        ],
    );

    assert_eq!(
        typecheck_column(&table, &ColumnName("age".to_string())),
        Err(TypeError::ColumnMismatch {
            column_name: ColumnName("age".to_string()),
            table_name: TableName("User".to_string()),
            left: ScalarType::Int,
            right: ScalarType::String
        })
    );
}

#[test]
fn typecheck_mismatched_columns() {
    let table = multi_table(
        "User",
        &[
            ("User", &[("age", ScalarType::Int)]),
            ("Admin", &[("age", ScalarType::String)]),
        ],
    );

    assert_eq!(
        typecheck_column(&table, &ColumnName("age".to_string())),
        Err(TypeError::ColumnMismatch {
            column_name: ColumnName("age".to_string()),
            table_name: TableName("User".to_string()),
            left: ScalarType::Int,
            right: ScalarType::String
        })
    );
}

#[test]
fn column_in_a_strict_subset_of_variants_is_optional() {
    let table = multi_table(
        "pet",
        &[
            ("Cat", &[("age", ScalarType::Int), ("name", ScalarType::String)]),
            (
                "Dog",
                &[
                    ("age", ScalarType::Int),
                    ("name", ScalarType::String),
                    ("likes_stick", ScalarType::Bool),
                ],
            ),
        ],
    );

    assert_eq!(
        typecheck_column(&table, &ColumnName("likes_stick".to_string())),
        Ok((
            ColumnName("likes_stick".to_string()),
            Type::Optional(Box::new(Type::ScalarType(ScalarType::Bool)))
        ))
    );
    assert_eq!(
        typecheck_column(&table, &ColumnName("age".to_string())),
        Ok((
            ColumnName("age".to_string()),
            Type::ScalarType(ScalarType::Int)
        ))
    );
}

#[test]
fn int_is_int() {
    typecheck_scalar(&ScalarValue::Int(1), &Type::ScalarType(ScalarType::Int))
        .expect("should be Right");
}

#[test]
fn scalar_int_is_int() {
    typecheck_scalar(&ScalarValue::Int(1), &Type::ScalarType(ScalarType::Int))
        .expect("should be Right");
}

#[test]
fn maybe_int_accepts_null() {
    typecheck_scalar(
        &ScalarValue::Null,
        &Type::Optional(Box::new(Type::ScalarType(ScalarType::Int))),
    )
    .expect("should be Right");
}

#[test]
fn scalar_maybe_int_accepts_null() {
    typecheck_scalar(
        &ScalarValue::Null,
        &Type::Optional(Box::new(Type::ScalarType(ScalarType::Int))),
    )
    .expect("should be Right");
}

#[test]
fn null_is_rejected_for_a_mandatory_column() {
    assert_eq!(
        typecheck_scalar(&ScalarValue::Null, &Type::ScalarType(ScalarType::Int)),
        Err(TypeError::TypeMismatchInInput {
            expected_type: Type::ScalarType(ScalarType::Int),
            input_value: ScalarValue::Null
        })
    );
}

#[test]
fn table_doesnt_exist() {
    let tables: NameMap<TableName, Table> = NameMap::new();

    let insert = Insert {
        table: TableName("Horses".to_string()),
        key: 100,
        value: InsertValue::Single { values: NameMap::new() },
    };

    assert_eq!(
        typecheck_insert(&tables, &insert),
        Err(TypeError::TableNotFound(TableName("Horses".to_string())))
    );
}

#[test]
fn insert_table_doesnt_exist() {
    let tables: NameMap<TableName, Table> = NameMap::new();

    let insert = Insert {
        table: TableName("Horses".to_string()),
        key: 100,
        value: InsertValue::Single { values: NameMap::new() },
    };

    assert_eq!(
        typecheck_insert(&tables, &insert),
        Err(TypeError::TableNotFound(TableName("Horses".to_string())))
    );
}

fn horses_tables() -> NameMap<TableName, Table> {
    let table = single_table("Horses", &[("age", ScalarType::Int)]);
    let mut tables: NameMap<TableName, Table> = NameMap::new();
    tables.insert(TableName("Horses".to_string()), table);
    tables
}

#[test]
fn column_is_missing() {
    let tables = horses_tables();

    let insert = Insert {
        table: TableName("Horses".to_string()),
        key: 100,
        value: InsertValue::Single { values: NameMap::new() },
    };

    assert_eq!(
        typecheck_insert(&tables, &insert),
        Err(TypeError::MissingColumnInInput {
            table_name: TableName("Horses".to_string()),
            column_name: ColumnName("age".to_string())
        })
    );
}

#[test]
fn insert_column_is_missing() {
    let tables = horses_tables();

    let insert = Insert {
        table: TableName("Horses".to_string()),
        key: 100,
        value: InsertValue::Single { values: NameMap::new() },
    };

    assert_eq!(
        typecheck_insert(&tables, &insert),
        Err(TypeError::MissingColumnInInput {
            table_name: TableName("Horses".to_string()),
            column_name: ColumnName("age".to_string())
        })
    );
}

#[test]
fn value_has_wrong_type() {
    let tables = horses_tables();

    let mut insert_value: NameMap<ColumnName, ScalarValue> = NameMap::new();
    insert_value.insert(
        ColumnName("age".to_string()),
        ScalarValue::String("dog".to_string()),
    );

    let insert = Insert {
        table: TableName("Horses".to_string()),
        key: 100,
        value: InsertValue::Single { values: insert_value },
    };

    assert_eq!(
        typecheck_insert(&tables, &insert),
        Err(TypeError::TypeMismatchInInput {
            expected_type: Type::ScalarType(ScalarType::Int),
            input_value: ScalarValue::String("dog".to_string())
        })
    );
}

#[test]
fn insert_value_has_wrong_type() {
    let tables = horses_tables();

    let mut insert_value: NameMap<ColumnName, ScalarValue> = NameMap::new();
    insert_value.insert(
        ColumnName("age".to_string()),
        ScalarValue::String("dog".to_string()),
    );

    let insert = Insert {
        table: TableName("Horses".to_string()),
        key: 100,
        value: InsertValue::Single { values: insert_value },
    };

    assert_eq!(
        typecheck_insert(&tables, &insert),
        Err(TypeError::TypeMismatchInInput {
            expected_type: Type::ScalarType(ScalarType::Int),
            input_value: ScalarValue::String("dog".to_string())
        })
    );
}

#[test]
fn multi_constructor_column_is_missing() {
    let table = multi_table(
        "Horses",
        &[
            ("Age", &[("age", ScalarType::Int)]),
            ("Name", &[("name", ScalarType::String)]),
        ],
    );
    let mut tables: NameMap<TableName, Table> = NameMap::new();
    tables.insert(TableName("Horses".to_string()), table);

    let insert = Insert {
        table: TableName("Horses".to_string()),
        key: 100,
        value: InsertValue::Multiple {
            constructor: Constructor("Age".to_string()),
            values: NameMap::new(),
        },
    };

    assert_eq!(
        typecheck_insert(&tables, &insert),
        Err(TypeError::MissingColumnInInput {
            table_name: TableName("Horses".to_string()),
            column_name: ColumnName("age".to_string())
        })
    );
}

#[test]
fn insert_without_constructor_into_tagged_union() {
    let table = multi_table("Horses", &[("Age", &[("age", ScalarType::Int)])]);
    let mut tables: NameMap<TableName, Table> = NameMap::new();
    tables.insert(TableName("Horses".to_string()), table);

    let insert = Insert {
        table: TableName("Horses".to_string()),
        key: 1,
        value: InsertValue::Single { values: NameMap::new() },
    };

    assert_eq!(
        typecheck_insert(&tables, &insert),
        Err(TypeError::ConstructorNotSpecified {
            table: TableName("Horses".to_string())
        })
    );
}

#[test]
fn insert_with_constructor_into_plain_table() {
    let tables = horses_tables();

    let insert = Insert {
        table: TableName("Horses".to_string()),
        key: 1,
        value: InsertValue::Multiple {
            constructor: Constructor("Age".to_string()),
            values: NameMap::new(),
        },
    };

    assert_eq!(
        typecheck_insert(&tables, &insert),
        Err(TypeError::ConstructorSpecifiedButNotRequired {
            table: TableName("Horses".to_string())
        })
    );
}

#[test]
fn insert_with_unknown_constructor() {
    let table = multi_table("Horses", &[("Age", &[("age", ScalarType::Int)])]);
    let mut tables: NameMap<TableName, Table> = NameMap::new();
    tables.insert(TableName("Horses".to_string()), table);

    let insert = Insert {
        table: TableName("Horses".to_string()),
        key: 1,
        value: InsertValue::Multiple {
            constructor: Constructor("Name".to_string()),
            values: NameMap::new(),
        },
    };

    assert_eq!(
        typecheck_insert(&tables, &insert),
        Err(TypeError::ConstructorNotFound {
            table_name: TableName("Horses".to_string()),
            constructor: Constructor("Name".to_string())
        })
    );
}

#[test]
fn typechecking_twice_gives_the_same_answer() {
    let table = single_table(
        "user",
        &[
            ("age", ScalarType::Int),
            ("nice", ScalarType::Bool),
            ("name", ScalarType::String),
        ],
    );
    let mut tables: NameMap<TableName, Table> = NameMap::new();
    tables.insert(TableName("user".to_string()), table);

    let make_query = || Select {
        table: TableName("user".to_string()),
        columns: SelectColumns::SelectColumns {
            columns: vec![ColumnName("name".to_string()), ColumnName("missing".to_string())],
        },
        filter: typed_store::empty_where(),
    };
    let first = typecheck_select(&tables, &make_query());
    let second = typecheck_select(&tables, &make_query());
    assert_eq!(first, second);

    let make_insert = || Insert {
        table: TableName("user".to_string()),
        key: 7,
        value: InsertValue::Single { values: NameMap::new() },
    };
    let first = typecheck_insert(&tables, &make_insert());
    let second = typecheck_insert(&tables, &make_insert());
    assert_eq!(first, second);
}
