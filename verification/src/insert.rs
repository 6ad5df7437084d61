//! The validated insert: look the table up, type-check the row against its
//! schema, and only then store it.

use vstd::prelude::*;

use crate::data::{data_key, lookup_table, stored_row, table_key, Store, StoreValueV};
use crate::map::{map_get, NameMap};
use crate::typecheck::insert::{typecheck_insert, typecheck_insert_spec};
use crate::types::{Insert, InsertError, InsertErrorV, InsertV, Table, TableName};

verus! {

/// What inserting a row yields: the table's schema is fetched from the
/// store, the row is validated against it, and on success the encoded row
/// is stored under its `data_<table>_<key>` key; any failure leaves the
/// store unchanged.
pub open spec fn insert_spec(entries: Seq<(Seq<char>, StoreValueV)>, ins: InsertV) -> Result<
    Seq<(Seq<char>, StoreValueV)>,
    InsertErrorV,
> {
    match map_get(entries, table_key(ins.table)) {
        Some(StoreValueV::Schema(t)) => match typecheck_insert_spec(seq![(ins.table, t)], ins) {
            Err(e) => Err(InsertErrorV::TypeError(e)),
            Ok(()) => Ok(
                crate::data::store_put(
                    entries,
                    data_key(ins.table, ins.key as int),
                    StoreValueV::Row(stored_row(ins.value)),
                ),
            ),
        },
        _ => Err(InsertErrorV::TableNotFound(ins.table)),
    }
}

/// Insert one row, per `insert_spec`: validate it against the stored schema
/// and store it on success, leaving the store unchanged on failure.
pub fn insert(store: &mut Store, ins: &Insert) -> (r: Result<i32, InsertError>)
    ensures
        match r {
            Ok(n) => n == 1 && insert_spec(old(store)@, ins@) == Ok::<
                Seq<(Seq<char>, StoreValueV)>,
                InsertErrorV,
            >(final(store)@),
            Err(e) => insert_spec(old(store)@, ins@) == Err::<
                Seq<(Seq<char>, StoreValueV)>,
                InsertErrorV,
            >(e@) && final(store)@ == old(store)@,
        },
        old(store).wf() ==> final(store).wf(),
{
    let table = match lookup_table(store, &ins.table) {
        Some(t) => t,
        None => {
            return Err(InsertError::TableNotFound(ins.table.dup()));
        },
    };
    let ghost tv = table@;
    let mut tables: NameMap<TableName, Table> = NameMap::new();
    tables.insert(ins.table.dup(), table);
    proof {
        assert(tables@ =~= seq![(ins.table@, tv)]);
    }
    match typecheck_insert(&tables, ins) {
        Err(e) => {
            return Err(InsertError::TypeError(e));
        },
        Ok(()) => {},
    }
    Ok(crate::data::insert(store, ins))
}

} // verus!
