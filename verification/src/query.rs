//! The query executor: scan the table's key range, evaluate the filter
//! expression against each row, and project the requested columns, emitting
//! null for a column the row does not hold.

use vstd::prelude::*;

use crate::data::{
    data_prefix, lookup_table, make_data_prefix, prefix_entries, table_key, Store, StoreValue,
    StoreValueV,
};
use crate::map::{map_get, map_put, pairs_view, NameMap};
use crate::typecheck::{typecheck_select, typecheck_select_spec};
use crate::types::{
    and, bool_expr, equals, names_view, ColumnName, Expression, ExprV, Function, Row, RowV,
    ScalarValue, ScalarValueV, Select, SelectColumns, SelectColumnsV, SelectError, SelectErrorV,
    SelectV, Table, TableName, Type,
};

verus! {

// ---------------------------------------------------------------------
// Expression evaluation
// ---------------------------------------------------------------------

/// What a filter expression means on one row: a comparison looks the column
/// up and tests the stored value for equality — a row lacking the column
/// fails the comparison; a conjunction holds when both sides do; a literal
/// is itself.
pub open spec fn eval_expr(row: RowV, e: ExprV) -> bool
    decreases e,
{
    match e {
        ExprV::Bool(b) => b,
        ExprV::Comparison(col, v) => match map_get(row, col) {
            Some(stored) => stored == v,
            None => false,
        },
        ExprV::BinaryFunction(_, left, right) => if eval_expr(row, *left) {
            eval_expr(row, *right)
        } else {
            false
        },
    }
}

/// Whether the expression is the literal true.
pub fn is_true(expression: &Expression) -> (r: bool)
    ensures
        r == (expression@ == ExprV::Bool(true)),
{
    matches!(expression, Expression::Bool(true))
}

/// Evaluate the expression against one row, reducing it to a boolean
/// literal; the conjunction short-circuits on a false left side.
pub fn apply_expression(row: &Row, expression: &Expression) -> (r: Expression)
    ensures
        r@ == ExprV::Bool(eval_expr(row@, expression@)),
    decreases *expression,
{
    match expression {
        Expression::Comparison(c) => match row.get(&c.column) {
            Some(stored) => bool_expr(*stored == c.value),
            None => bool_expr(false),
        },
        Expression::Bool(b) => Expression::Bool(*b),
        Expression::BinaryFunction { function, expr_left, expr_right } => match function {
            Function::And => {
                if is_true(&apply_expression(row, expr_left)) {
                    apply_expression(row, expr_right)
                } else {
                    bool_expr(false)
                }
            },
        },
    }
}

// ---------------------------------------------------------------------
// Projection
// ---------------------------------------------------------------------

/// The stored value of the column, or null when the row does not hold it.
pub open spec fn lookup_or_null(row: RowV, col: Seq<char>) -> ScalarValueV {
    match map_get(row, col) {
        Some(v) => v,
        None => ScalarValueV::Null,
    }
}

/// The projection of the first `n` requested columns, built up left to
/// right; a column requested twice keeps one binding, as in a map.
pub open spec fn project_row_upto(row: RowV, cols: Seq<Seq<char>>, n: int) -> RowV
    decreases n,
{
    if n <= 0 {
        Seq::empty()
    } else {
        map_put(project_row_upto(row, cols, n - 1), cols[n - 1], lookup_or_null(row, cols[n - 1]))
    }
}

/// The output object for one matching row: exactly the requested columns,
/// each bound to the row's value or to null when absent.
pub open spec fn project_row(row: RowV, cols: Seq<Seq<char>>) -> RowV {
    project_row_upto(row, cols, cols.len() as int)
}

/// Build the output object for one row, per `project_row`.
fn project_columns(row: &Row, columns: &Vec<ColumnName>) -> (r: Row)
    ensures
        r@ == project_row(row@, names_view(columns@)),
{
    let mut out: Row = NameMap::new();
    let n = columns.len();
    for i in 0..n
        invariant
            n == columns@.len(),
            out@ == project_row_upto(row@, names_view(columns@), i as int),
    {
        let item: ScalarValue = match row.get(&columns[i]) {
            Some(v) => v.dup(),
            None => ScalarValue::Null,
        };
        out.insert(columns[i].dup(), item);
    }
    out
}

// ---------------------------------------------------------------------
// Constructor restriction
// ---------------------------------------------------------------------

/// A constructor restriction becomes a filter on the reserved `_type`
/// column, conjoined with the query's own filter; the projected columns are
/// the requested ones either way.
pub open spec fn add_constructor_spec(c: SelectColumnsV, w: ExprV) -> (ExprV, Seq<Seq<char>>) {
    match c {
        SelectColumnsV::SelectColumns(cols) => (w, cols),
        SelectColumnsV::SelectConstructor(ctor, cols) => (
            ExprV::BinaryFunction(
                Function::And,
                Box::new(w),
                Box::new(ExprV::Comparison("_type"@, ScalarValueV::String(ctor))),
            ),
            cols,
        ),
    }
}

/// Rewrite a constructor restriction into the filter, per
/// `add_constructor_spec`.
pub fn add_constructor_to_expression(columns: SelectColumns, filter: Expression) -> (r: (
    Expression,
    Vec<ColumnName>,
))
    ensures
        r.0@ == add_constructor_spec(columns@, filter@).0,
        names_view(r.1@) == add_constructor_spec(columns@, filter@).1,
{
    match columns {
        SelectColumns::SelectColumns { columns } => (filter, columns),
        SelectColumns::SelectConstructor { constructor, columns } => {
            let tag = ColumnName(String::new().concat("_type"));
            (and(filter, equals(tag, ScalarValue::String(constructor.0))), columns)
        },
    }
}

// ---------------------------------------------------------------------
// The scan
// ---------------------------------------------------------------------

/// The row payloads among the scanned entries, in scan order.
pub open spec fn rows_of(entries: Seq<(Seq<char>, StoreValueV)>) -> Seq<RowV>
    decreases entries.len(),
{
    if entries.len() == 0 {
        Seq::empty()
    } else {
        rows_of(entries.drop_last()) + match entries.last().1 {
            StoreValueV::Row(r) => seq![r],
            _ => Seq::empty(),
        }
    }
}

/// The query results over the first `n` scanned rows: each row passing the
/// filter is projected and paired with its ordinal — its one-based position
/// among the scanned rows, filtered or not.
pub open spec fn results_upto(rows: Seq<RowV>, n: int, cond: ExprV, cols: Seq<Seq<char>>) -> Seq<
    (int, RowV),
>
    decreases n,
{
    if n <= 0 {
        Seq::empty()
    } else {
        results_upto(rows, n - 1, cond, cols) + if eval_expr(rows[n - 1], cond) {
            seq![(n, project_row(rows[n - 1], cols))]
        } else {
            Seq::empty()
        }
    }
}

/// `results_upto` reads only the first `n` rows.
proof fn lemma_results_upto_extend(rows: Seq<RowV>, r: RowV, n: int, cond: ExprV, cols: Seq<
    Seq<char>,
>)
    requires
        0 <= n <= rows.len(),
    ensures
        results_upto(rows.push(r), n, cond, cols) == results_upto(rows, n, cond, cols),
    decreases n,
{
    if n > 0 {
        lemma_results_upto_extend(rows, r, n - 1, cond, cols);
        assert(rows.push(r)[n - 1] == rows[n - 1]);
    }
}

/// The rows of a scan prefix are a prefix of the rows of the whole scan.
proof fn lemma_rows_of_take(m: Seq<(Seq<char>, StoreValueV)>, i: int)
    requires
        0 <= i <= m.len(),
    ensures
        rows_of(m.take(i)).len() <= rows_of(m).len(),
        rows_of(m.take(i)) == rows_of(m).take(rows_of(m.take(i)).len() as int),
    decreases m.len(),
{
    if i == m.len() {
        assert(m.take(i) =~= m);
        assert(rows_of(m).take(rows_of(m).len() as int) =~= rows_of(m));
    } else {
        assert(m.take(i) =~= m.drop_last().take(i));
        lemma_rows_of_take(m.drop_last(), i);
        let l = rows_of(m.take(i)).len() as int;
        assert(rows_of(m.drop_last()).take(l) =~= rows_of(m).take(l));
    }
}

/// What a SELECT yields: the table's schema is fetched from the store, the
/// query is type-checked against it, a constructor restriction is folded
/// into the filter, and the table's key range is scanned in key order; each
/// stored row passing the filter is projected onto the requested columns
/// and paired with its one-based position among the scanned rows.
pub open spec fn select_spec(entries: Seq<(Seq<char>, StoreValueV)>, q: SelectV) -> Result<
    Seq<(int, RowV)>,
    SelectErrorV,
> {
    match map_get(entries, table_key(q.table)) {
        Some(StoreValueV::Schema(t)) => match typecheck_select_spec(seq![(q.table, t)], q) {
            Err(e) => Err(SelectErrorV::TypeError(e)),
            Ok(_) => {
                let (cond, cols) = add_constructor_spec(q.columns, q.filter);
                let rows = rows_of(prefix_entries(entries, data_prefix(q.table)));
                Ok(results_upto(rows, rows.len() as int, cond, cols))
            },
        },
        _ => Err(SelectErrorV::TableNotFound(q.table)),
    }
}

/// The view of a result list.
pub open spec fn results_view(s: Seq<(usize, Row)>) -> Seq<(int, RowV)> {
    Seq::new(s.len(), |i: int| (s[i].0 as int, s[i].1@))
}

/// Run a SELECT against the store, per `select_spec`.
pub fn select(store: &Store, query: Select) -> (r: Result<Vec<(usize, Row)>, SelectError>)
    ensures
        match r {
            Ok(results) => select_spec(store@, query@) == Ok::<Seq<(int, RowV)>, SelectErrorV>(
                results_view(results@),
            ),
            Err(e) => select_spec(store@, query@) == Err::<Seq<(int, RowV)>, SelectErrorV>(e@),
        },
{
    let table = match lookup_table(store, &query.table) {
        Some(t) => t,
        None => {
            return Err(SelectError::TableNotFound(query.table.dup()));
        },
    };
    let ghost tv = table@;
    let mut tables: NameMap<TableName, Table> = NameMap::new();
    tables.insert(query.table.dup(), table);
    proof {
        assert(tables@ =~= seq![(query.table@, tv)]);
    }
    match typecheck_select(&tables, &query) {
        Err(e) => {
            return Err(SelectError::TypeError(e));
        },
        Ok(_) => {},
    }
    let prefix = make_data_prefix(&query.table);
    let scanned = store.prefix_scan(prefix.as_str());
    let ghost pe = prefix_entries(store@, data_prefix(query@.table));
    let ghost rows = rows_of(pe);
    let (filter_expr, columns) = add_constructor_to_expression(query.columns, query.filter);
    let ghost cond = filter_expr@;
    let ghost colsv = names_view(columns@);
    let mut results: Vec<(usize, Row)> = Vec::new();
    let mut ord: usize = 0;
    let n = scanned.len();
    proof {
        assert(pe.take(0) =~= Seq::<(Seq<char>, StoreValueV)>::empty());
        assert(rows.take(0) =~= Seq::<RowV>::empty());
        assert(results_view(results@) =~= results_upto(rows, 0, cond, colsv));
    }
    for idx in 0..n
        invariant
            n == scanned@.len(),
            pairs_view(scanned@) == pe,
            rows == rows_of(pe),
            n == pe.len(),
            cond == filter_expr@,
            colsv == names_view(columns@),
            ord <= idx,
            ord as int <= rows.len(),
            rows_of(pe.take(idx as int)) == rows.take(ord as int),
            ord as int == rows_of(pe.take(idx as int)).len(),
            results_view(results@) == results_upto(rows, ord as int, cond, colsv),
    {
        proof {
            assert(pe.take(idx as int + 1).drop_last() =~= pe.take(idx as int));
            assert(pe.take(idx as int + 1).last() == pe[idx as int]);
            assert(pe[idx as int] == (scanned@[idx as int].0@, scanned@[idx as int].1@));
            lemma_rows_of_take(pe, idx as int + 1);
        }
        match &scanned[idx].1 {
            StoreValue::Row(row) => {
                proof {
                    assert(rows_of(pe.take(idx as int + 1)) == rows.take(ord as int) + seq![row@]);
                    assert(rows.take(ord as int + 1) =~= rows.take(ord as int) + seq![row@]);
                    assert(rows.take(ord as int + 1)[ord as int] == rows[ord as int]);
                    assert(rows[ord as int] == row@);
                }
                ord = ord + 1;
                if is_true(&apply_expression(row, &filter_expr)) {
                    let projected = project_columns(row, &columns);
                    let ghost prev = results@;
                    results.push((ord, projected));
                    proof {
                        assert(results_view(results@) =~= results_view(prev) + seq![
                            (ord as int, project_row(row@, colsv)),
                        ]);
                    }
                } else {
                }
            },
            StoreValue::Schema(_) => {
                proof {
                    assert(rows_of(pe.take(idx as int + 1)) == rows.take(ord as int));
                }
            },
        }
    }
    proof {
        assert(pe.take(n as int) =~= pe);
        assert(rows.take(rows.len() as int) =~= rows);
    }
    Ok(results)
}

} // verus!
