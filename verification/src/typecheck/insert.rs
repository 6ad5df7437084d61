//! INSERT validation: does one row of values fit the table it is inserted
//! into?

use vstd::prelude::*;

use crate::map::{map_get, NameMap};
use crate::typecheck::column::{typecheck_column, typecheck_column_spec};
use crate::typecheck::scalar::{typecheck_scalar, typecheck_scalar_spec};
use crate::types::{
    ColumnName, Columns, ColumnsV, ColumnTypesV, Insert, InsertV, InsertValue, InsertValueV, Row,
    RowV, ScalarType, Table, TableName, TableV, Type, TypeError, TypeErrorV,
};

verus! {

/// Check the declared columns from index `i` on: each declared column must
/// resolve, be present in the input values, and hold a fitting value; the
/// first failure wins. Keys in the input that are not declared are ignored.
pub open spec fn check_values_spec(t: TableV, cols: ColumnTypesV, values: RowV, i: int) -> Result<
    (),
    TypeErrorV,
>
    decreases cols.len() - i,
{
    if i < 0 || i >= cols.len() {
        Ok(())
    } else {
        match typecheck_column_spec(t, cols[i].0) {
            Err(e) => Err(e),
            Ok((_, ty)) => match map_get(values, cols[i].0) {
                None => Err(TypeErrorV::MissingColumnInInput {
                    table_name: t.name,
                    column_name: cols[i].0,
                }),
                Some(v) => match typecheck_scalar_spec(v, ty) {
                    Err(e) => Err(e),
                    Ok(()) => check_values_spec(t, cols, values, i + 1),
                },
            },
        }
    }
}

/// What validating an insert yields: the table must exist, the shape of the
/// values must match the shape of the schema (a tagged union demands a
/// constructor and a plain table forbids one), the named variant must
/// exist, and every declared column must be present with a fitting value.
pub open spec fn typecheck_insert_spec(tables: Seq<(Seq<char>, TableV)>, ins: InsertV) -> Result<
    (),
    TypeErrorV,
> {
    match map_get(tables, ins.table) {
        None => Err(TypeErrorV::TableNotFound(ins.table)),
        Some(t) => match (ins.value, t.columns) {
            (InsertValueV::Single(values), ColumnsV::SingleConstructor(cols)) => check_values_spec(
                t,
                cols,
                values,
                0,
            ),
            (InsertValueV::Multiple(ctor, values), ColumnsV::MultipleConstructors(vs)) => {
                match map_get(vs, ctor) {
                    None => Err(TypeErrorV::ConstructorNotFound {
                        table_name: t.name,
                        constructor: ctor,
                    }),
                    Some(cols) => check_values_spec(t, cols, values, 0),
                }
            },
            (InsertValueV::Single(_), ColumnsV::MultipleConstructors(_)) => Err(
                TypeErrorV::ConstructorNotSpecified { table: t.name },
            ),
            (InsertValueV::Multiple(_, _), ColumnsV::SingleConstructor(_)) => Err(
                TypeErrorV::ConstructorSpecifiedButNotRequired { table: t.name },
            ),
        },
    }
}

/// Look a table up, or report that it does not exist.
pub(crate) fn get_table<'a>(tables: &'a NameMap<TableName, Table>, table_name: &TableName) -> (r:
    Result<&'a Table, TypeError>)
    ensures
        match r {
            Ok(t) => map_get(tables@, table_name@) == Some(t@),
            Err(e) => map_get(tables@, table_name@) is None && e@ == TypeErrorV::TableNotFound(
                table_name@,
            ),
        },
{
    match tables.get(table_name) {
        Some(table) => Ok(table),
        None => Err(TypeError::TableNotFound(table_name.dup())),
    }
}

/// Check the input values against one declared column set, per
/// `check_values_spec`.
pub fn check_values_against_column(
    table: &Table,
    columns: &NameMap<ColumnName, ScalarType>,
    values: &Row,
) -> (r: Result<(), TypeError>)
    ensures
        match r {
            Ok(()) => check_values_spec(table@, columns@, values@, 0) == Ok::<(), TypeErrorV>(()),
            Err(e) => check_values_spec(table@, columns@, values@, 0) == Err::<(), TypeErrorV>(e@),
        },
{
    let n = columns.len();
    for i in 0..n
        invariant
            n == columns@.len(),
            check_values_spec(table@, columns@, values@, 0) == check_values_spec(
                table@,
                columns@,
                values@,
                i as int,
            ),
    {
        let column_name = columns.key_at(i);
        let column_type: Type = match typecheck_column(table, column_name) {
            Ok((_, ty)) => ty,
            Err(e) => {
                return Err(e);
            },
        };
        let value = match values.get(column_name) {
            Some(v) => v,
            None => {
                return Err(TypeError::MissingColumnInInput {
                    column_name: column_name.dup(),
                    table_name: table.name.dup(),
                });
            },
        };
        match typecheck_scalar(value, &column_type) {
            Ok(()) => {},
            Err(e) => {
                return Err(e);
            },
        }
    }
    Ok(())
}

/// Validate an insert against the schema registry, per
/// `typecheck_insert_spec`.
pub fn typecheck_insert(tables: &NameMap<TableName, Table>, insert: &Insert) -> (r: Result<
    (),
    TypeError,
>)
    ensures
        match r {
            Ok(()) => typecheck_insert_spec(tables@, insert@) == Ok::<(), TypeErrorV>(()),
            Err(e) => typecheck_insert_spec(tables@, insert@) == Err::<(), TypeErrorV>(e@),
        },
{
    let table = match get_table(tables, &insert.table) {
        Ok(t) => t,
        Err(e) => {
            return Err(e);
        },
    };
    match (&insert.value, &table.columns) {
        (InsertValue::Single { values }, Columns::SingleConstructor(columns)) => {
            check_values_against_column(table, columns, values)
        },
        (
            InsertValue::Multiple { constructor, values },
            Columns::MultipleConstructors(constructors),
        ) => {
            match constructors.get(constructor) {
                Some(columns) => check_values_against_column(table, columns, values),
                None => Err(TypeError::ConstructorNotFound {
                    table_name: table.name.dup(),
                    constructor: constructor.dup(),
                }),
            }
        },
        (InsertValue::Single { .. }, Columns::MultipleConstructors(_)) => Err(
            TypeError::ConstructorNotSpecified { table: table.name.dup() },
        ),
        (InsertValue::Multiple { .. }, Columns::SingleConstructor(_)) => Err(
            TypeError::ConstructorSpecifiedButNotRequired { table: table.name.dup() },
        ),
    }
}

} // verus!
