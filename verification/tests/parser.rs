//! Tests of the table-definition and query grammar.

use typed_store::{
    column_name, comparison, constructor, empty_where, expression, function, parse_table,
    scalar_value, select_columns, ColumnName, Columns, Comparison, Constructor, Expression,
    Function, NameMap, ScalarType, ScalarValue, Select, SelectColumns, Table, TableName,
};

#[test]
fn test_scalar_value() {
    assert_eq!(scalar_value("  false"), Ok(("", ScalarValue::Bool(false))));
    assert_eq!(scalar_value("   true"), Ok(("", ScalarValue::Bool(true))));
    assert_eq!(scalar_value("  100"), Ok(("", ScalarValue::Int(100))));
    assert_eq!(
        scalar_value("     \"dog\""),
        Ok(("", ScalarValue::String("dog".to_string())))
    );
}

#[test]
fn test_comparison() {
    assert_eq!(
        comparison("alive =   true"),
        Ok((
            "",
            Comparison {
                column: ColumnName("alive".to_string()),
                value: ScalarValue::Bool(true)
            }
        ))
    );
}

#[test]
fn test_function() {
    assert_eq!(function("  &&"), Ok(("", Function::And)));
}

#[test]
fn test_expression() {
    assert_eq!(expression("true"), Ok(("", Expression::Bool(true))));
    assert_eq!(expression("false"), Ok(("", Expression::Bool(false))));
    assert_eq!(
        expression("alive =  true"),
        Ok((
            "",
            Expression::Comparison(Comparison {
                column: ColumnName("alive".to_string()),
                value: ScalarValue::Bool(true)
            })
        ))
    );
    assert_eq!(
        expression("  alive = true   &&  dog =   100"),
        Ok((
            "",
            Expression::BinaryFunction {
                function: Function::And,
                expr_left: Box::new(Expression::Comparison(Comparison {
                    column: ColumnName("alive".to_string()),
                    value: ScalarValue::Bool(true)
                })),
                expr_right: Box::new(Expression::Comparison(Comparison {
                    column: ColumnName("dog".to_string()),
                    value: ScalarValue::Int(100)
                }))
            }
        ))
    );
}

#[test]
fn test_table_name() {
    assert_eq!(matches!(typed_store::table_name("123horse"), Err(_)), true);

    assert_eq!(
        typed_store::table_name("horse"),
        Ok(("", TableName("horse".to_string())))
    );

    assert_eq!(
        typed_store::table_name(" horse"),
        Ok(("", TableName("horse".to_string())))
    );
}

#[test]
fn test_constructor() {
    assert_eq!(matches!(constructor("horse"), Err(_)), true);

    assert_eq!(
        constructor(" Horse"),
        Ok(("", Constructor("Horse".to_string())))
    );

    assert_eq!(
        constructor("Horse"),
        Ok(("", Constructor("Horse".to_string())))
    );
}

#[test]
fn test_column_name() {
    assert_eq!(matches!(column_name("Horse"), Err(_)), true);

    assert_eq!(
        column_name(" horse"),
        Ok(("", ColumnName("horse".to_string())))
    );

    assert_eq!(
        column_name("horse"),
        Ok(("", ColumnName("horse".to_string())))
    );
}

#[test]
fn test_select() {
    assert_eq!(
        typed_store::parse_select("select id, name from users"),
        Ok((
            "",
            Select {
                table: TableName("users".to_string()),
                columns: SelectColumns::SelectColumns {
                    columns: vec![ColumnName("id".to_string()), ColumnName("name".to_string())]
                },
                filter: empty_where()
            }
        ))
    );
    assert_eq!(
        typed_store::parse_select("select id, name from users where user_id=100"),
        Ok((
            "",
            Select {
                table: TableName("users".to_string()),
                columns: SelectColumns::SelectColumns {
                    columns: vec![ColumnName("id".to_string()), ColumnName("name".to_string())]
                },
                filter: Expression::Comparison(Comparison {
                    column: ColumnName("user_id".to_string()),
                    value: ScalarValue::Int(100)
                })
            }
        ))
    );
}

#[test]
fn test_select_columns() {
    assert_eq!(
        select_columns("RGB{ red ,  green ,  blue }"),
        Ok((
            "",
            SelectColumns::SelectConstructor {
                constructor: Constructor("RGB".to_string()),
                columns: vec![
                    ColumnName("red".to_string()),
                    ColumnName("green".to_string()),
                    ColumnName("blue".to_string())
                ]
            }
        ))
    );

    assert_eq!(
        select_columns("horse  ,    course,eggs"),
        Ok((
            "",
            SelectColumns::SelectColumns {
                columns: vec![
                    ColumnName("horse".to_string()),
                    ColumnName("course".to_string()),
                    ColumnName("eggs".to_string())
                ]
            }
        ))
    );
}

#[test]
fn test_single_constructor_table() {
    let mut columns: NameMap<ColumnName, ScalarType> = NameMap::new();
    columns.insert(ColumnName("id".to_string()), ScalarType::Int);
    columns.insert(ColumnName("name".to_string()), ScalarType::String);
    columns.insert(ColumnName("likes_dogs".to_string()), ScalarType::Bool);

    assert_eq!(
        parse_table("type user { id: Int, name: String, likes_dogs: Bool }"),
        Ok((
            "",
            Table {
                name: TableName("user".to_string()),
                columns: Columns::SingleConstructor(columns)
            }
        ))
    );
}

#[test]
fn test_multiple_constructor_table() {
    let mut rgb_columns: NameMap<ColumnName, ScalarType> = NameMap::new();
    rgb_columns.insert(ColumnName("red".to_string()), ScalarType::Int);
    rgb_columns.insert(ColumnName("green".to_string()), ScalarType::Int);
    rgb_columns.insert(ColumnName("blue".to_string()), ScalarType::Int);

    let mut greyscale_columns: NameMap<ColumnName, ScalarType> = NameMap::new();
    greyscale_columns.insert(ColumnName("value".to_string()), ScalarType::Int);

    let mut constructors: NameMap<Constructor, NameMap<ColumnName, ScalarType>> = NameMap::new();
    constructors.insert(Constructor("RGB".to_string()), rgb_columns);
    constructors.insert(Constructor("Greyscale".to_string()), greyscale_columns);

    assert_eq!(
        parse_table(
            "type color { RGB { red: Int, green: Int, blue: Int }, Greyscale { value: Int } }"
        ),
        Ok((
            "",
            Table {
                name: TableName("color".to_string()),
                columns: Columns::MultipleConstructors(constructors)
            }
        ))
    );
}

#[test]
fn int_literal_over_range_does_not_parse() {
    assert_eq!(matches!(scalar_value("99999999999"), Err(_)), true);
    assert_eq!(scalar_value("2147483647"), Ok(("", ScalarValue::Int(2147483647))));
    assert_eq!(scalar_value("-2147483648"), Ok(("", ScalarValue::Int(-2147483648))));
    assert_eq!(matches!(scalar_value("2147483648"), Err(_)), true);
}

#[test]
fn missing_where_clause_means_always_true() {
    let (rest, q) = typed_store::parse_select("select name from user").expect("parse_select");
    assert_eq!(rest, "");
    assert_eq!(q.filter, Expression::Bool(true));
}
