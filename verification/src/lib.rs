//! A minimal typed document store: a small query language (table
//! definitions, SELECT and INSERT) is type-checked against a user-declared
//! schema and executed against an ordered key-value store using prefix
//! scans. Tables are either a single fixed set of typed columns or a tagged
//! union of named variants; the type-checker unifies a column's type across
//! variants, widening to an optional type when the column is not present in
//! every variant.

pub mod data;
pub mod insert;
pub mod laws;
pub mod map;
pub mod order;
pub mod parser;
pub mod query;
pub mod typecheck;
pub mod types;

pub use data::{insert_table, lookup_table, matches_prefix, Store, StoreValue};
pub use map::NameMap;
pub use parser::select as parse_select;
pub use parser::{
    column_name, comparison, constructor, expression, function, parse_table, scalar_value,
    select_columns, table_name, ParseError,
};
pub use query::{add_constructor_to_expression, apply_expression, is_true, select};
pub use typecheck::column::typecheck_column;
pub use typecheck::insert::{check_values_against_column, typecheck_insert};
pub use typecheck::scalar::{inner_scalar_type, typecheck_scalar};
pub use typecheck::{empty_where, typecheck_expression, typecheck_select};
pub use types::{
    and, bool_expr, equals, ColumnName, Columns, Comparison, Constructor, Expression, Function,
    Insert, InsertError, InsertValue, Row, ScalarType, ScalarValue, Select, SelectColumns,
    SelectError, Table, TableName, Type, TypeError,
};
