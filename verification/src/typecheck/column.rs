//! Column resolution: give one query-facing type to a column of a table,
//! unifying the column's declared type across the variants of a tagged
//! union and widening to an optional type when the column is absent from
//! some variant.

use vstd::prelude::*;

use crate::map::{map_get, NameMap};
use crate::types::{
    ColumnName, Columns, ColumnsV, ColumnTypesV, ScalarType, Table, TableV, Type, TypeError,
    TypeErrorV,
};

verus! {

/// The declared types of the column across the variants, one entry per
/// variant that declares it, in variant order.
pub open spec fn found_types(vs: Seq<(Seq<char>, ColumnTypesV)>, col: Seq<char>) -> Seq<ScalarType>
    decreases vs.len(),
{
    if vs.len() == 0 {
        Seq::empty()
    } else {
        found_types(vs.drop_last(), col) + match map_get(vs.last().1, col) {
            Some(t) => seq![t],
            None => Seq::empty(),
        }
    }
}

/// The first type from index `i` on that differs from the first found type,
/// if any.
pub open spec fn first_mismatch(ts: Seq<ScalarType>, i: int) -> Option<ScalarType>
    decreases ts.len() - i,
{
    if i < 0 || i >= ts.len() {
        None
    } else if ts[i] != ts[0] {
        Some(ts[i])
    } else {
        first_mismatch(ts, i + 1)
    }
}

/// What resolving a column of a table yields: its name and unified type, or
/// the exact error.
pub open spec fn typecheck_column_spec(t: TableV, col: Seq<char>) -> Result<
    (Seq<char>, Type),
    TypeErrorV,
> {
    match t.columns {
        ColumnsV::SingleConstructor(cols) => match map_get(cols, col) {
            Some(st) => Ok((col, Type::ScalarType(st))),
            None => Err(TypeErrorV::ColumnNotFound { table_name: t.name, column_name: col }),
        },
        ColumnsV::MultipleConstructors(vs) => {
            let ts = found_types(vs, col);
            if ts.len() == 0 {
                Err(TypeErrorV::ColumnNotFound { table_name: t.name, column_name: col })
            } else {
                match first_mismatch(ts, 1) {
                    Some(bad) => Err(TypeErrorV::ColumnMismatch {
                        table_name: t.name,
                        column_name: col,
                        left: ts[0],
                        right: bad,
                    }),
                    None => if ts.len() < vs.len() {
                        Ok((col, Type::Optional(Box::new(Type::ScalarType(ts[0])))))
                    } else {
                        Ok((col, Type::ScalarType(ts[0])))
                    },
                }
            }
        },
    }
}

/// Resolve one column of the table to the type a query sees, per
/// `typecheck_column_spec`: in a single-constructor table the declared
/// scalar type; in a tagged union the type unified across all variants,
/// optional when some variant lacks the column.
pub fn typecheck_column(table: &Table, column_name: &ColumnName) -> (r: Result<
    (ColumnName, Type),
    TypeError,
>)
    ensures
        match r {
            Ok((c, ty)) => typecheck_column_spec(table@, column_name@) == Ok::<
                (Seq<char>, Type),
                TypeErrorV,
            >((c@, ty)),
            Err(e) => typecheck_column_spec(table@, column_name@) == Err::<
                (Seq<char>, Type),
                TypeErrorV,
            >(e@),
        },
{
    match &table.columns {
        Columns::SingleConstructor(columns) => match columns.get(column_name) {
            Some(scalar_type) => Ok((column_name.dup(), Type::ScalarType(*scalar_type))),
            None => Err(TypeError::ColumnNotFound {
                table_name: table.name.dup(),
                column_name: column_name.dup(),
            }),
        },
        Columns::MultipleConstructors(constructors) => {
            let n = constructors.len();
            let mut found: Vec<ScalarType> = Vec::new();
            proof {
                assert(constructors@.take(0) =~= Seq::<(Seq<char>, ColumnTypesV)>::empty());
            }
            for i in 0..n
                invariant
                    n == constructors@.len(),
                    found@ == found_types(constructors@.take(i as int), column_name@),
            {
                let columns = constructors.val_at(i);
                proof {
                    assert(constructors@.take(i as int + 1).drop_last() =~= constructors@.take(
                        i as int,
                    ));
                    assert(constructors@.take(i as int + 1).last() == constructors@[i as int]);
                }
                match columns.get(column_name) {
                    Some(scalar_type) => {
                        found.push(*scalar_type);
                    },
                    None => {},
                }
            }
            proof {
                assert(constructors@.take(n as int) =~= constructors@);
            }
            if found.len() == 0 {
                return Err(TypeError::ColumnNotFound {
                    table_name: table.name.dup(),
                    column_name: column_name.dup(),
                });
            }
            let first: ScalarType = found[0];
            let m = found.len();
            for j in 1..m
                invariant
                    m == found@.len(),
                    m > 0,
                    first == found@[0],
                    first_mismatch(found@, 1) == first_mismatch(found@, j as int),
                    1 <= j,
                    table@.columns == ColumnsV::MultipleConstructors(constructors@),
                    found@ == found_types(constructors@, column_name@),
            {
                if found[j] != first {
                    return Err(TypeError::ColumnMismatch {
                        table_name: table.name.dup(),
                        column_name: column_name.dup(),
                        left: first,
                        right: found[j],
                    });
                }
            }
            if found.len() < constructors.len() {
                Ok((column_name.dup(), Type::Optional(Box::new(Type::ScalarType(first)))))
            } else {
                Ok((column_name.dup(), Type::ScalarType(first)))
            }
        },
    }
}

} // verus!
