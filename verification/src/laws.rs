//! The laws of the library: what column unification, type-checking and the
//! insert/select pipeline guarantee, stated over the same spec functions
//! the executable contracts use, and proved.

use vstd::prelude::*;

use crate::data::{
    data_key, data_prefix, int_string, nat_digits, prefix_entries, store_put, stored_row,
    table_key, StoreValueV,
};
use crate::insert::insert_spec;
use crate::map::map_get;
use crate::order::is_strict_prefix;
use crate::query::{
    eval_expr, lookup_or_null, project_row, project_row_upto, results_upto, rows_of, select_spec,
};
use crate::typecheck::column::{first_mismatch, found_types, typecheck_column_spec};
use crate::typecheck::typecheck_select_spec;
use crate::types::{
    ColumnsV, ColumnTypesV, ExprV, InsertV, RowV, ScalarType, SelectColumnsV, SelectV, TableV,
    Type, TypeErrorV,
};

verus! {

// ---------------------------------------------------------------------
// Column unification
// ---------------------------------------------------------------------

/// Law: in a single-constructor table, a declared column resolves to its
/// declared scalar type, mandatory; an undeclared column is reported as not
/// found, naming the table and the column.
pub proof fn law_single_constructor_column(t: TableV, cols: ColumnTypesV, c: Seq<char>)
    requires
        t.columns == ColumnsV::SingleConstructor(cols),
    ensures
        match map_get(cols, c) {
            Some(ty) => typecheck_column_spec(t, c) == Ok::<(Seq<char>, Type), TypeErrorV>(
                (c, Type::ScalarType(ty)),
            ),
            None => typecheck_column_spec(t, c) == Err::<(Seq<char>, Type), TypeErrorV>(
                TypeErrorV::ColumnNotFound { table_name: t.name, column_name: c },
            ),
        },
{
}

/// No variant declares the column, so nothing is found.
proof fn lemma_found_types_none(vs: Seq<(Seq<char>, ColumnTypesV)>, c: Seq<char>)
    requires
        forall|i: int| 0 <= i < vs.len() ==> map_get(#[trigger] vs[i].1, c) is None,
    ensures
        found_types(vs, c).len() == 0,
    decreases vs.len(),
{
    if vs.len() > 0 {
        assert(forall|i: int|
            0 <= i < vs.drop_last().len() ==> #[trigger] vs.drop_last()[i] == vs[i]);
        lemma_found_types_none(vs.drop_last(), c);
    }
}

/// Law: in a tagged union where no variant declares the column, resolution
/// fails with the column not found.
pub proof fn law_column_in_no_variant(
    t: TableV,
    vs: Seq<(Seq<char>, ColumnTypesV)>,
    c: Seq<char>,
)
    requires
        t.columns == ColumnsV::MultipleConstructors(vs),
        forall|i: int| 0 <= i < vs.len() ==> map_get(#[trigger] vs[i].1, c) is None,
    ensures
        typecheck_column_spec(t, c) == Err::<(Seq<char>, Type), TypeErrorV>(
            TypeErrorV::ColumnNotFound { table_name: t.name, column_name: c },
        ),
{
    lemma_found_types_none(vs, c);
}

/// Every variant declaring the column declares it at one type, so every
/// found type is that type, and at most one entry per variant is found.
proof fn lemma_found_types_uniform(
    vs: Seq<(Seq<char>, ColumnTypesV)>,
    c: Seq<char>,
    ty: ScalarType,
)
    requires
        forall|i: int|
            0 <= i < vs.len() ==> (map_get(#[trigger] vs[i].1, c) is None || map_get(vs[i].1, c)
                == Some(ty)),
    ensures
        found_types(vs, c).len() <= vs.len(),
        forall|j: int| 0 <= j < found_types(vs, c).len() ==> #[trigger] found_types(vs, c)[j] == ty,
    decreases vs.len(),
{
    if vs.len() > 0 {
        assert(forall|i: int|
            0 <= i < vs.drop_last().len() ==> #[trigger] vs.drop_last()[i] == vs[i]);
        lemma_found_types_uniform(vs.drop_last(), c, ty);
    }
}

/// A variant declaring the column contributes one found type.
proof fn lemma_found_types_nonempty(
    vs: Seq<(Seq<char>, ColumnTypesV)>,
    c: Seq<char>,
    i: int,
    ty: ScalarType,
)
    requires
        0 <= i < vs.len(),
        map_get(vs[i].1, c) == Some(ty),
    ensures
        found_types(vs, c).len() >= 1,
    decreases vs.len(),
{
    if i < vs.len() - 1 {
        assert(vs.drop_last()[i] == vs[i]);
        lemma_found_types_nonempty(vs.drop_last(), c, i, ty);
    }
}

/// A variant not declaring the column keeps one variant out of the count.
proof fn lemma_found_types_short(vs: Seq<(Seq<char>, ColumnTypesV)>, c: Seq<char>, i: int)
    requires
        0 <= i < vs.len(),
        map_get(vs[i].1, c) is None,
    ensures
        found_types(vs, c).len() < vs.len(),
    decreases vs.len(),
{
    lemma_found_types_bound(vs, c);
    if i < vs.len() - 1 {
        assert(vs.drop_last()[i] == vs[i]);
        lemma_found_types_short(vs.drop_last(), c, i);
    } else {
        lemma_found_types_bound(vs.drop_last(), c);
    }
}

/// At most one found type per variant.
proof fn lemma_found_types_bound(vs: Seq<(Seq<char>, ColumnTypesV)>, c: Seq<char>)
    ensures
        found_types(vs, c).len() <= vs.len(),
    decreases vs.len(),
{
    if vs.len() > 0 {
        lemma_found_types_bound(vs.drop_last(), c);
    }
}

/// Scanning equal types finds no mismatch.
proof fn lemma_first_mismatch_none(ts: Seq<ScalarType>, i: int)
    requires
        forall|j: int| i <= j < ts.len() ==> #[trigger] ts[j] == ts[0],
    ensures
        first_mismatch(ts, i) is None,
    decreases ts.len() - i,
{
    if 0 <= i < ts.len() {
        lemma_first_mismatch_none(ts, i + 1);
    }
}

/// Law: a column declared by every variant, everywhere at one type,
/// resolves to that type, mandatory.
pub proof fn law_column_in_all_variants(
    t: TableV,
    vs: Seq<(Seq<char>, ColumnTypesV)>,
    c: Seq<char>,
    ty: ScalarType,
)
    requires
        t.columns == ColumnsV::MultipleConstructors(vs),
        vs.len() > 0,
        forall|i: int| 0 <= i < vs.len() ==> map_get(#[trigger] vs[i].1, c) == Some(ty),
    ensures
        typecheck_column_spec(t, c) == Ok::<(Seq<char>, Type), TypeErrorV>(
            (c, Type::ScalarType(ty)),
        ),
{
    let ts = found_types(vs, c);
    lemma_found_types_uniform(vs, c, ty);
    lemma_found_types_nonempty(vs, c, 0, ty);
    lemma_found_types_count_all(vs, c, ty);
    lemma_first_mismatch_none(ts, 1);
}

/// When every variant declares the column, one type is found per variant.
proof fn lemma_found_types_count_all(
    vs: Seq<(Seq<char>, ColumnTypesV)>,
    c: Seq<char>,
    ty: ScalarType,
)
    requires
        forall|i: int| 0 <= i < vs.len() ==> map_get(#[trigger] vs[i].1, c) == Some(ty),
    ensures
        found_types(vs, c).len() == vs.len(),
    decreases vs.len(),
{
    if vs.len() > 0 {
        assert(forall|i: int|
            0 <= i < vs.drop_last().len() ==> #[trigger] vs.drop_last()[i] == vs[i]);
        lemma_found_types_count_all(vs.drop_last(), c, ty);
    }
}

/// Law: a column declared by some variants but not all, everywhere at one
/// type, resolves to that type widened to optional.
pub proof fn law_column_in_some_variants(
    t: TableV,
    vs: Seq<(Seq<char>, ColumnTypesV)>,
    c: Seq<char>,
    ty: ScalarType,
    present: int,
    absent: int,
)
    requires
        t.columns == ColumnsV::MultipleConstructors(vs),
        0 <= present < vs.len(),
        0 <= absent < vs.len(),
        map_get(vs[present].1, c) == Some(ty),
        map_get(vs[absent].1, c) is None,
        forall|i: int|
            0 <= i < vs.len() ==> (map_get(#[trigger] vs[i].1, c) is None || map_get(vs[i].1, c)
                == Some(ty)),
    ensures
        typecheck_column_spec(t, c) == Ok::<(Seq<char>, Type), TypeErrorV>(
            (c, Type::Optional(Box::new(Type::ScalarType(ty)))),
        ),
{
    let ts = found_types(vs, c);
    lemma_found_types_uniform(vs, c, ty);
    lemma_found_types_nonempty(vs, c, present, ty);
    lemma_found_types_short(vs, c, absent);
    lemma_first_mismatch_none(ts, 1);
}

/// The scan from `i` stops at the first type differing from the first found
/// type.
proof fn lemma_first_mismatch_some(ts: Seq<ScalarType>, i: int, k: int)
    requires
        1 <= i <= k < ts.len(),
        ts[k] != ts[0],
    ensures
        exists|j: int|
            i <= j < ts.len() && #[trigger] ts[j] != ts[0] && (forall|m: int|
                i <= m < j ==> #[trigger] ts[m] == ts[0]) && first_mismatch(ts, i) == Some(ts[j]),
    decreases k - i,
{
    if ts[i] != ts[0] {
        let j = i;
        assert(ts[j] != ts[0] && (forall|m: int| i <= m < j ==> #[trigger] ts[m] == ts[0])
            && first_mismatch(ts, i) == Some(ts[j]));
    } else {
        lemma_first_mismatch_some(ts, i + 1, k);
        let j = choose|j: int|
            i + 1 <= j < ts.len() && #[trigger] ts[j] != ts[0] && (forall|m: int|
                i + 1 <= m < j ==> #[trigger] ts[m] == ts[0]) && first_mismatch(ts, i + 1) == Some(
                ts[j],
            );
        assert(ts[j] != ts[0] && (forall|m: int| i <= m < j ==> #[trigger] ts[m] == ts[0])
            && first_mismatch(ts, i) == Some(ts[j]));
    }
}

/// Law: a column declared at differing types across variants fails with a
/// mismatch whose left side is the first-found type and whose right side is
/// the first type differing from it, in variant order.
pub proof fn law_column_type_mismatch(
    t: TableV,
    vs: Seq<(Seq<char>, ColumnTypesV)>,
    c: Seq<char>,
    k: int,
)
    requires
        t.columns == ColumnsV::MultipleConstructors(vs),
        0 <= k < found_types(vs, c).len(),
        found_types(vs, c)[k] != found_types(vs, c)[0],
    ensures
        ({
            let ts = found_types(vs, c);
            exists|j: int|
                1 <= j < ts.len() && #[trigger] ts[j] != ts[0] && (forall|m: int|
                    1 <= m < j ==> #[trigger] ts[m] == ts[0]) && typecheck_column_spec(t, c)
                    == Err::<
                    (Seq<char>, Type),
                    TypeErrorV,
                >(
                    TypeErrorV::ColumnMismatch {
                        table_name: t.name,
                        column_name: c,
                        left: ts[0],
                        right: ts[j],
                    },
                )
        }),
{
    let ts = found_types(vs, c);
    lemma_first_mismatch_some(ts, 1, k);
    let j = choose|j: int|
        1 <= j < ts.len() && #[trigger] ts[j] != ts[0] && (forall|m: int|
            1 <= m < j ==> #[trigger] ts[m] == ts[0]) && first_mismatch(ts, 1) == Some(ts[j]);
    assert(ts[j] != ts[0] && (forall|m: int| 1 <= m < j ==> #[trigger] ts[m] == ts[0])
        && typecheck_column_spec(t, c) == Err::<(Seq<char>, Type), TypeErrorV>(
        TypeErrorV::ColumnMismatch {
            table_name: t.name,
            column_name: c,
            left: ts[0],
            right: ts[j],
        },
    ));
}

// ---------------------------------------------------------------------
// Purity of type-checking
// ---------------------------------------------------------------------

/// Law: type-checking is a pure function of the schema registry and the
/// query or insert — the executable checkers promise results equal to
/// `typecheck_select_spec` and `typecheck_insert_spec` of their inputs'
/// views alone, so re-running them on the same inputs yields the same
/// result, with no hidden state.
pub proof fn law_typecheck_pure(
    tables1: Seq<(Seq<char>, TableV)>,
    tables2: Seq<(Seq<char>, TableV)>,
    q1: SelectV,
    q2: SelectV,
    ins1: InsertV,
    ins2: InsertV,
)
    requires
        tables1 == tables2,
        q1 == q2,
        ins1 == ins2,
    ensures
        typecheck_select_spec(tables1, q1) == typecheck_select_spec(tables2, q2),
        crate::typecheck::insert::typecheck_insert_spec(tables1, ins1)
            == crate::typecheck::insert::typecheck_insert_spec(tables2, ins2),
{
}

// ---------------------------------------------------------------------
// The insert/select round trip
// ---------------------------------------------------------------------

/// A prefix scan distributes over concatenation of entry runs.
proof fn lemma_prefix_entries_concat<V>(
    a: Seq<(Seq<char>, V)>,
    b: Seq<(Seq<char>, V)>,
    p: Seq<char>,
)
    ensures
        prefix_entries(a + b, p) == prefix_entries(a, p) + prefix_entries(b, p),
    decreases b.len(),
{
    if b.len() == 0 {
        assert(a + b =~= a);
        assert(prefix_entries(a, p) + prefix_entries(b, p) =~= prefix_entries(a, p));
    } else {
        lemma_prefix_entries_concat(a, b.drop_last(), p);
        assert((a + b).drop_last() =~= a + b.drop_last());
        assert((a + b).last() == b.last());
        assert(prefix_entries(a, p) + prefix_entries(b.drop_last(), p) + (if is_strict_prefix(
            p,
            b.last().0,
        ) {
            seq![b.last()]
        } else {
            Seq::<(Seq<char>, V)>::empty()
        }) =~= prefix_entries(a, p) + prefix_entries(b, p));
    }
}

/// A scan finding nothing means no entry's key extends the prefix.
proof fn lemma_prefix_entries_empty<V>(m: Seq<(Seq<char>, V)>, p: Seq<char>)
    requires
        prefix_entries(m, p).len() == 0,
    ensures
        forall|i: int| 0 <= i < m.len() ==> !is_strict_prefix(p, #[trigger] m[i].0),
    decreases m.len(),
{
    if m.len() > 0 {
        lemma_prefix_entries_empty(m.drop_last(), p);
        assert(forall|i: int| 0 <= i < m.len() - 1 ==> #[trigger] m[i] == m.drop_last()[i]);
    }
}

/// A scan of one entry keeps it exactly when its key extends the prefix.
proof fn lemma_prefix_entries_single<V>(e: (Seq<char>, V), p: Seq<char>)
    ensures
        prefix_entries(seq![e], p) == if is_strict_prefix(p, e.0) {
            seq![e]
        } else {
            Seq::<(Seq<char>, V)>::empty()
        },
{
    assert(seq![e].drop_last() =~= Seq::<(Seq<char>, V)>::empty());
    assert(prefix_entries(Seq::<(Seq<char>, V)>::empty(), p) =~= Seq::<(Seq<char>, V)>::empty());
    assert(seq![e].last() == e);
    if is_strict_prefix(p, e.0) {
        assert(prefix_entries(seq![e], p) =~= seq![e]);
    } else {
        assert(prefix_entries(seq![e], p) =~= Seq::<(Seq<char>, V)>::empty());
    }
}

/// Storing one fresh matching key into a store with no matching keys makes
/// the scan yield exactly that entry.
proof fn lemma_prefix_entries_put_fresh<V>(m: Seq<(Seq<char>, V)>, k: Seq<char>, v: V, p: Seq<char>)
    requires
        prefix_entries(m, p).len() == 0,
        is_strict_prefix(p, k),
    ensures
        prefix_entries(store_put(m, k, v), p) == seq![(k, v)],
    decreases m.len(),
{
    lemma_prefix_entries_empty(m, p);
    let single = seq![(k, v)];
    lemma_prefix_entries_single((k, v), p);
    if m.len() == 0 {
        assert(store_put(m, k, v) == single);
    } else if crate::order::lex_lt(k, m[0].0) {
        lemma_prefix_entries_concat(single, m, p);
        assert(prefix_entries(single, p) + prefix_entries(m, p) =~= single);
    } else if m[0].0 == k {
        assert(is_strict_prefix(p, m[0].0));
        assert(false);
    } else {
        assert(forall|i: int|
            0 <= i < m.drop_first().len() ==> #[trigger] m.drop_first()[i] == m[i + 1]);
        lemma_prefix_entries_take_none(m, p, m.len() - 1);
        lemma_prefix_entries_drop_first_none(m, p);
        lemma_prefix_entries_put_fresh(m.drop_first(), k, v, p);
        lemma_prefix_entries_concat(seq![m[0]], store_put(m.drop_first(), k, v), p);
        assert(seq![m[0]] + store_put(m.drop_first(), k, v) =~= store_put(m, k, v));
        lemma_prefix_entries_single(m[0], p);
        assert(Seq::<(Seq<char>, V)>::empty() + single =~= single);
    }
}

/// Helper: a scan of the first entries of a scan-empty store is empty.
proof fn lemma_prefix_entries_take_none<V>(m: Seq<(Seq<char>, V)>, p: Seq<char>, i: int)
    requires
        forall|l: int| 0 <= l < m.len() ==> !is_strict_prefix(p, #[trigger] m[l].0),
        0 <= i <= m.len(),
    ensures
        prefix_entries(m.take(i), p).len() == 0,
    decreases i,
{
    if i > 0 {
        lemma_prefix_entries_take_none(m, p, i - 1);
        assert(m.take(i).drop_last() =~= m.take(i - 1));
        assert(m.take(i).last() == m[i - 1]);
    }
}

/// Helper: dropping the head of a scan-empty store leaves a scan-empty one.
proof fn lemma_prefix_entries_drop_first_none<V>(m: Seq<(Seq<char>, V)>, p: Seq<char>)
    requires
        m.len() > 0,
        forall|l: int| 0 <= l < m.len() ==> !is_strict_prefix(p, #[trigger] m[l].0),
    ensures
        prefix_entries(m.drop_first(), p).len() == 0,
    decreases m.len(),
{
    if m.len() > 1 {
        assert(m.drop_first().drop_last() =~= m.drop_last().drop_first());
        lemma_prefix_entries_drop_first_none(m.drop_last(), p);
        assert(m.drop_first().last() == m.last());
    }
}

/// A decimal rendering holds at least one character.
proof fn lemma_int_string_nonempty(i: int)
    ensures
        int_string(i).len() >= 1,
{
    if i < 0 {
        lemma_nat_digits_nonempty((-i) as nat);
    } else {
        lemma_nat_digits_nonempty(i as nat);
    }
}

proof fn lemma_nat_digits_nonempty(n: nat)
    ensures
        nat_digits(n).len() >= 1,
    decreases n,
{
    if n >= 10 {
        lemma_nat_digits_nonempty(n / 10);
    }
}

/// A row key properly extends its table's data prefix.
proof fn lemma_data_key_has_prefix(table: Seq<char>, key: int)
    ensures
        is_strict_prefix(data_prefix(table), data_key(table, key)),
{
    lemma_int_string_nonempty(key);
    assert(data_key(table, key).take(data_prefix(table).len() as int) =~= data_prefix(table));
}

/// A schema key is never a row key.
proof fn lemma_table_key_not_data_key(t1: Seq<char>, t2: Seq<char>, key: int)
    ensures
        table_key(t1) != data_key(t2, key),
{
    reveal_strlit("table_");
    reveal_strlit("data_");
    lemma_int_string_nonempty(key);
    assert(table_key(t1)[0] == 't');
    assert(data_key(t2, key)[0] == 'd');
}

/// The bindings of a projection of the first `n` requested columns.
proof fn lemma_project_row_upto_get(row: RowV, cols: Seq<Seq<char>>, n: int, c: Seq<char>)
    requires
        0 <= n <= cols.len(),
    ensures
        map_get(project_row_upto(row, cols, n), c) == if exists|j: int|
            0 <= j < n && cols[j] == c {
            Some(lookup_or_null(row, c))
        } else {
            None::<crate::types::ScalarValueV>
        },
    decreases n,
{
    if n == 0 {
        assert(map_get(project_row_upto(row, cols, 0), c) is None);
    } else {
        lemma_project_row_upto_get(row, cols, n - 1, c);
        crate::map::lemma_map_put_get(
            project_row_upto(row, cols, n - 1),
            cols[n - 1],
            lookup_or_null(row, cols[n - 1]),
            c,
        );
        if c == cols[n - 1] {
            assert(exists|j: int| 0 <= j < n && cols[j] == c);
        }
    }
}

/// Law: the output object for one matching row binds exactly the requested
/// columns — each requested column to the row's stored value, or to null
/// where the row does not hold it, and nothing else.
pub proof fn law_projection_binds_requested_columns(row: RowV, cols: Seq<Seq<char>>, c: Seq<char>)
    ensures
        map_get(project_row(row, cols), c) == if cols.contains(c) {
            Some(lookup_or_null(row, c))
        } else {
            None::<crate::types::ScalarValueV>
        },
{
    lemma_project_row_upto_get(row, cols, cols.len() as int, c);
}

/// Law: inserting one row into a table that has no stored rows, then
/// selecting any columns from it with the always-true filter, returns
/// exactly that row under ordinal 1, projected onto the requested columns —
/// each requested column bound to the inserted value, or to null where the
/// stored row does not hold it.
pub proof fn law_insert_select_round_trip(
    entries: Seq<(Seq<char>, StoreValueV)>,
    ins: InsertV,
    t: TableV,
    cols: Seq<Seq<char>>,
    q: SelectV,
)
    requires
        map_get(entries, table_key(ins.table)) == Some(StoreValueV::Schema(t)),
        insert_spec(entries, ins) is Ok,
        prefix_entries(entries, data_prefix(ins.table)).len() == 0,
        q == (SelectV {
            table: ins.table,
            columns: SelectColumnsV::SelectColumns(cols),
            filter: ExprV::Bool(true),
        }),
        typecheck_select_spec(seq![(ins.table, t)], q) is Ok,
    ensures
        ({
            let row = stored_row(ins.value);
            let new_entries = store_put(
                entries,
                data_key(ins.table, ins.key as int),
                StoreValueV::Row(row),
            );
            insert_spec(entries, ins) == Ok::<
                Seq<(Seq<char>, StoreValueV)>,
                crate::types::InsertErrorV,
            >(new_entries) && select_spec(new_entries, q) == Ok::<
                Seq<(int, RowV)>,
                crate::types::SelectErrorV,
            >(seq![(1int, project_row(row, cols))])
        }),
{
    let row = stored_row(ins.value);
    let dk = data_key(ins.table, ins.key as int);
    let new_entries = store_put(entries, dk, StoreValueV::Row(row));
    crate::data::lemma_store_put_get(entries, dk, StoreValueV::Row(row), table_key(ins.table));
    lemma_table_key_not_data_key(ins.table, ins.table, ins.key as int);
    assert(map_get(new_entries, table_key(q.table)) == Some(StoreValueV::Schema(t)));
    lemma_data_key_has_prefix(ins.table, ins.key as int);
    lemma_prefix_entries_put_fresh(
        entries,
        dk,
        StoreValueV::Row(row),
        data_prefix(ins.table),
    );
    let scanned = prefix_entries(new_entries, data_prefix(q.table));
    assert(scanned == seq![(dk, StoreValueV::Row(row))]);
    let rows = rows_of(scanned);
    assert(scanned.drop_last() =~= Seq::<(Seq<char>, StoreValueV)>::empty());
    assert(rows_of(Seq::<(Seq<char>, StoreValueV)>::empty()) =~= Seq::<RowV>::empty());
    assert(scanned.last() == (dk, StoreValueV::Row(row)));
    assert(rows =~= seq![row]);
    assert(results_upto(rows, 0, ExprV::Bool(true), cols) =~= Seq::<(int, RowV)>::empty());
    assert(rows[0] == row);
    assert(eval_expr(rows[0], ExprV::Bool(true)));
    assert(results_upto(rows, 1, ExprV::Bool(true), cols) =~= seq![(1int, project_row(row, cols))]);
}

/// `store_put` leaves the stored pair somewhere in the entries.
proof fn lemma_store_put_has<V>(m: Seq<(Seq<char>, V)>, k: Seq<char>, v: V)
    ensures
        exists|j: int|
            0 <= j < store_put(m, k, v).len() && #[trigger] store_put(m, k, v)[j] == (k, v),
    decreases m.len(),
{
    let r = store_put(m, k, v);
    if m.len() == 0 || crate::order::lex_lt(k, m[0].0) || m[0].0 == k {
        assert(r[0] == (k, v));
    } else {
        lemma_store_put_has(m.drop_first(), k, v);
        let j = choose|j: int|
            0 <= j < store_put(m.drop_first(), k, v).len() && #[trigger] store_put(
                m.drop_first(),
                k,
                v,
            )[j] == (k, v);
        assert(r[j + 1] == (k, v));
    }
}

/// A scan keeps every entry whose key extends the prefix.
proof fn lemma_prefix_entries_member<V>(m: Seq<(Seq<char>, V)>, p: Seq<char>, j: int)
    requires
        0 <= j < m.len(),
        is_strict_prefix(p, m[j].0),
    ensures
        exists|l: int|
            0 <= l < prefix_entries(m, p).len() && #[trigger] prefix_entries(m, p)[l] == m[j],
    decreases m.len(),
{
    if j == m.len() - 1 {
        let l = prefix_entries(m.drop_last(), p).len() as int;
        assert(prefix_entries(m, p)[l] == m[j]);
    } else {
        assert(m.drop_last()[j] == m[j]);
        lemma_prefix_entries_member(m.drop_last(), p, j);
        let l = choose|l: int|
            0 <= l < prefix_entries(m.drop_last(), p).len() && #[trigger] prefix_entries(
                m.drop_last(),
                p,
            )[l] == m[j];
        assert(prefix_entries(m, p)[l] == m[j]);
    }
}

/// The scanned rows keep every row payload among the entries.
proof fn lemma_rows_of_member(pe: Seq<(Seq<char>, StoreValueV)>, l: int, r: RowV)
    requires
        0 <= l < pe.len(),
        pe[l].1 == StoreValueV::Row(r),
    ensures
        exists|i: int| 0 <= i < rows_of(pe).len() && #[trigger] rows_of(pe)[i] == r,
    decreases pe.len(),
{
    if l == pe.len() - 1 {
        let i = rows_of(pe.drop_last()).len() as int;
        assert(rows_of(pe)[i] == r);
    } else {
        assert(pe.drop_last()[l] == pe[l]);
        lemma_rows_of_member(pe.drop_last(), l, r);
        let i = choose|i: int|
            0 <= i < rows_of(pe.drop_last()).len() && #[trigger] rows_of(pe.drop_last())[i] == r;
        assert(rows_of(pe)[i] == r);
    }
}

/// With the always-true filter, the first `n` scanned rows all come out,
/// each under its one-based ordinal.
proof fn lemma_true_filter_all(rows: Seq<RowV>, n: int, cols: Seq<Seq<char>>)
    requires
        0 <= n <= rows.len(),
    ensures
        results_upto(rows, n, ExprV::Bool(true), cols).len() == n,
        forall|i: int|
            0 <= i < n ==> #[trigger] results_upto(rows, n, ExprV::Bool(true), cols)[i] == (
                i + 1,
                project_row(rows[i], cols),
            ),
    decreases n,
{
    if n > 0 {
        lemma_true_filter_all(rows, n - 1, cols);
        let prev = results_upto(rows, n - 1, ExprV::Bool(true), cols);
        let cur = results_upto(rows, n, ExprV::Bool(true), cols);
        assert forall|i: int|
            0 <= i < n implies #[trigger] cur[i] == (i + 1, project_row(rows[i], cols)) by {
            if i < n - 1 {
                assert(cur[i] == prev[i]);
            } else {
                assert(cur[i] == (n, project_row(rows[n - 1], cols)));
            }
        }
    }
}

/// Law: with the always-true filter, a SELECT lists every scanned row of
/// the table, in scan order, under one-based ordinals.
pub proof fn law_true_filter_keeps_every_row(rows: Seq<RowV>, cols: Seq<Seq<char>>)
    ensures
        results_upto(rows, rows.len() as int, ExprV::Bool(true), cols).len() == rows.len(),
        forall|i: int|
            0 <= i < rows.len() ==> #[trigger] results_upto(
                rows,
                rows.len() as int,
                ExprV::Bool(true),
                cols,
            )[i] == (i + 1, project_row(rows[i], cols)),
{
    lemma_true_filter_all(rows, rows.len() as int, cols);
}

/// Law: inserting a row and then selecting from its table with the
/// always-true filter returns a result list that contains that row,
/// projected onto the requested columns, under its scan ordinal — whatever
/// else the table already holds.
pub proof fn law_insert_select_contains_row(
    entries: Seq<(Seq<char>, StoreValueV)>,
    ins: InsertV,
    t: TableV,
    cols: Seq<Seq<char>>,
    q: SelectV,
)
    requires
        map_get(entries, table_key(ins.table)) == Some(StoreValueV::Schema(t)),
        insert_spec(entries, ins) is Ok,
        q == (SelectV {
            table: ins.table,
            columns: SelectColumnsV::SelectColumns(cols),
            filter: ExprV::Bool(true),
        }),
        typecheck_select_spec(seq![(ins.table, t)], q) is Ok,
    ensures
        ({
            let row = stored_row(ins.value);
            let new_entries = store_put(
                entries,
                data_key(ins.table, ins.key as int),
                StoreValueV::Row(row),
            );
            let rows = rows_of(prefix_entries(new_entries, data_prefix(ins.table)));
            let results = results_upto(rows, rows.len() as int, ExprV::Bool(true), cols);
            &&& insert_spec(entries, ins) == Ok::<
                Seq<(Seq<char>, StoreValueV)>,
                crate::types::InsertErrorV,
            >(new_entries)
            &&& select_spec(new_entries, q) == Ok::<
                Seq<(int, RowV)>,
                crate::types::SelectErrorV,
            >(results)
            &&& exists|i: int|
                0 <= i < results.len() && #[trigger] results[i] == (
                    i + 1,
                    project_row(row, cols),
                )
        }),
{
    let row = stored_row(ins.value);
    let dk = data_key(ins.table, ins.key as int);
    let new_entries = store_put(entries, dk, StoreValueV::Row(row));
    crate::data::lemma_store_put_get(entries, dk, StoreValueV::Row(row), table_key(ins.table));
    lemma_table_key_not_data_key(ins.table, ins.table, ins.key as int);
    assert(map_get(new_entries, table_key(q.table)) == Some(StoreValueV::Schema(t)));
    lemma_data_key_has_prefix(ins.table, ins.key as int);
    lemma_store_put_has(entries, dk, StoreValueV::Row(row));
    let j = choose|j: int|
        0 <= j < new_entries.len() && #[trigger] new_entries[j] == (dk, StoreValueV::Row(row));
    lemma_prefix_entries_member(new_entries, data_prefix(ins.table), j);
    let pe = prefix_entries(new_entries, data_prefix(ins.table));
    let l = choose|l: int| 0 <= l < pe.len() && #[trigger] pe[l] == (dk, StoreValueV::Row(row));
    lemma_rows_of_member(pe, l, row);
    let rows = rows_of(pe);
    let i = choose|i: int| 0 <= i < rows.len() && #[trigger] rows[i] == row;
    lemma_true_filter_all(rows, rows.len() as int, cols);
    let results = results_upto(rows, rows.len() as int, ExprV::Bool(true), cols);
    assert(results[i] == (i + 1, project_row(row, cols)));
}

} // verus!
