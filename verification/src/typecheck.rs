//! The type-checker: resolves columns, validates SELECT queries and INSERT
//! values against a table schema.

pub mod column;
pub mod insert;
pub mod scalar;

use vstd::prelude::*;

use crate::map::{map_get, map_has, NameMap};
use crate::typecheck::column::{typecheck_column, typecheck_column_spec};
use crate::types::{
    ColumnName, Expression, ExprV, Select, SelectColumns, SelectColumnsV, SelectV, Table,
    TableName, TableV, Type, TypeError, TypeErrorV,
};

verus! {

/// The filter used when a query has no WHERE clause: every row matches.
pub fn empty_where() -> (r: Expression)
    ensures
        r@ == ExprV::Bool(true),
{
    Expression::Bool(true)
}

/// The view of a list of typed columns returned by the type-checker.
pub open spec fn typed_columns_view(s: Seq<(ColumnName, Type)>) -> Seq<(Seq<char>, Type)> {
    Seq::new(s.len(), |i: int| (s[i].0@, s[i].1))
}

/// The column names a query projects, whichever way it spells them.
pub open spec fn select_columns_of(c: SelectColumnsV) -> Seq<Seq<char>> {
    match c {
        SelectColumnsV::SelectConstructor(_, cols) => cols,
        SelectColumnsV::SelectColumns(cols) => cols,
    }
}

/// Resolve the projected columns from index `i` on, collecting their types
/// in request order; the first failure aborts.
pub open spec fn typecheck_columns_spec(t: TableV, cols: Seq<Seq<char>>, i: int) -> Result<
    Seq<(Seq<char>, Type)>,
    TypeErrorV,
>
    decreases cols.len() - i,
{
    if i < 0 || i >= cols.len() {
        Ok(Seq::empty())
    } else {
        match typecheck_column_spec(t, cols[i]) {
            Err(e) => Err(e),
            Ok(p) => match typecheck_columns_spec(t, cols, i + 1) {
                Err(e) => Err(e),
                Ok(rest) => Ok(seq![p] + rest),
            },
        }
    }
}

/// Check a filter expression against the table: every compared column must
/// resolve; nothing is learned beyond that.
pub open spec fn typecheck_expression_spec(t: TableV, e: ExprV) -> Result<(), TypeErrorV>
    decreases e,
{
    match e {
        ExprV::Comparison(col, _) => match typecheck_column_spec(t, col) {
            Ok(_) => Ok(()),
            Err(e) => Err(e),
        },
        ExprV::Bool(_) => Ok(()),
        ExprV::BinaryFunction(_, left, right) => match typecheck_expression_spec(t, *left) {
            Err(e) => Err(e),
            Ok(()) => typecheck_expression_spec(t, *right),
        },
    }
}

/// What validating a SELECT yields: the table is looked up, every projected
/// column is resolved in request order, and the WHERE expression is checked
/// against the same table; the result is the typed output columns.
pub open spec fn typecheck_select_spec(tables: Seq<(Seq<char>, TableV)>, q: SelectV) -> Result<
    Seq<(Seq<char>, Type)>,
    TypeErrorV,
> {
    match map_get(tables, q.table) {
        None => Err(TypeErrorV::TableNotFound(q.table)),
        Some(t) => match typecheck_columns_spec(t, select_columns_of(q.columns), 0) {
            Err(e) => Err(e),
            Ok(typed) => match typecheck_expression_spec(t, q.filter) {
                Err(e) => Err(e),
                Ok(()) => Ok(typed),
            },
        },
    }
}

/// Check a filter expression against the table, per
/// `typecheck_expression_spec`.
pub fn typecheck_expression(table: &Table, expression: &Expression) -> (r: Result<(), TypeError>)
    ensures
        match r {
            Ok(()) => typecheck_expression_spec(table@, expression@) == Ok::<(), TypeErrorV>(()),
            Err(e) => typecheck_expression_spec(table@, expression@) == Err::<(), TypeErrorV>(e@),
        },
    decreases *expression,
{
    match expression {
        Expression::Comparison(c) => match typecheck_column(table, &c.column) {
            Ok(_) => Ok(()),
            Err(e) => Err(e),
        },
        Expression::Bool(_) => Ok(()),
        Expression::BinaryFunction { expr_left, expr_right, .. } => {
            match typecheck_expression(table, expr_left) {
                Err(e) => Err(e),
                Ok(()) => typecheck_expression(table, expr_right),
            }
        },
    }
}

/// Validate a SELECT against the schema registry, per
/// `typecheck_select_spec`, returning the typed output columns in request
/// order. The caller guarantees that the queried table is present.
pub fn typecheck_select(tables: &NameMap<TableName, Table>, select: &Select) -> (r: Result<
    Vec<(ColumnName, Type)>,
    TypeError,
>)
    requires
        map_has(tables@, select@.table),
    ensures
        match r {
            Ok(typed) => typecheck_select_spec(tables@, select@) == Ok::<
                Seq<(Seq<char>, Type)>,
                TypeErrorV,
            >(typed_columns_view(typed@)),
            Err(e) => typecheck_select_spec(tables@, select@) == Err::<
                Seq<(Seq<char>, Type)>,
                TypeErrorV,
            >(e@),
        },
{
    let table = match tables.get(&select.table) {
        Some(t) => t,
        None => vstd::pervasive::unreached(),
    };
    let select_columns: &Vec<ColumnName> = match &select.columns {
        SelectColumns::SelectColumns { columns } => columns,
        SelectColumns::SelectConstructor { columns, .. } => columns,
    };
    let ghost colsv = select_columns_of(select@.columns);
    proof {
        assert(colsv =~= crate::types::names_view(select_columns@));
    }
    let n = select_columns.len();
    let mut typed: Vec<(ColumnName, Type)> = Vec::new();
    for i in 0..n
        invariant
            n == select_columns@.len(),
            colsv == crate::types::names_view(select_columns@),
            colsv == select_columns_of(select@.columns),
            n == colsv.len(),
            map_get(tables@, select@.table) == Some(table@),
            typecheck_columns_spec(table@, colsv, 0) == (match typecheck_columns_spec(
                table@,
                colsv,
                i as int,
            ) {
                Err(e) => Err(e),
                Ok(rest) => Ok(typed_columns_view(typed@) + rest),
            }),
    {
        proof {
            assert(colsv[i as int] == select_columns@[i as int]@);
        }
        match typecheck_column(table, &select_columns[i]) {
            Err(e) => {
                proof {
                    assert(typecheck_columns_spec(table@, colsv, i as int) == Err::<
                        Seq<(Seq<char>, Type)>,
                        TypeErrorV,
                    >(e@));
                }
                return Err(e);
            },
            Ok(p) => {
                let ghost prev = typed@;
                let ghost pv = (p.0@, p.1);
                typed.push(p);
                proof {
                    assert(typed_columns_view(typed@) =~= typed_columns_view(prev) + seq![pv]);
                    match typecheck_columns_spec(table@, colsv, i as int + 1) {
                        Ok(rest) => {
                            assert((typed_columns_view(prev) + seq![pv]) + rest
                                =~= typed_columns_view(prev) + (seq![pv] + rest));
                        },
                        Err(_) => {},
                    }
                }
            },
        }
    }
    proof {
        assert(typed_columns_view(typed@) + Seq::<(Seq<char>, Type)>::empty() =~= typed_columns_view(
            typed@,
        ));
    }
    match typecheck_expression(table, &select.filter) {
        Err(e) => {
            return Err(e);
        },
        Ok(()) => {},
    }
    Ok(typed)
}

} // verus!
