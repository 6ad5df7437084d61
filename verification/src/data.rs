//! The storage adapter: an ordered key-value store holding table schemas
//! under `table_<name>` keys and rows under `data_<table>_<key>` keys, with
//! lookup and prefix-scan primitives. Entries are kept sorted by key in
//! lexical order, the order a scan yields them in.

use vstd::prelude::*;
use vstd::string::StringSliceAdditionalSpecFns;

use crate::map::{map_get, map_put, pairs_view};
use crate::order::{is_strict_prefix, lex_lt, str_eq, str_lt, str_strict_prefix};
use crate::order::{lemma_lex_asymmetric, lemma_lex_connected, lemma_lex_transitive};
use crate::types::{
    ColumnName, Insert, InsertValue, InsertValueV, Row, RowV, ScalarValue, ScalarValueV, Table,
    TableName, TableV,
};

verus! {

// ---------------------------------------------------------------------
// Key layout
// ---------------------------------------------------------------------

/// The decimal digit character for a value between 0 and 9.
pub open spec fn digit_char(d: int) -> char {
    if d == 0 {
        '0'
    } else if d == 1 {
        '1'
    } else if d == 2 {
        '2'
    } else if d == 3 {
        '3'
    } else if d == 4 {
        '4'
    } else if d == 5 {
        '5'
    } else if d == 6 {
        '6'
    } else if d == 7 {
        '7'
    } else if d == 8 {
        '8'
    } else {
        '9'
    }
}

/// The decimal digits of a natural number, most significant first.
pub open spec fn nat_digits(n: nat) -> Seq<char>
    decreases n,
{
    if n < 10 {
        seq![digit_char(n as int)]
    } else {
        nat_digits(n / 10) + seq![digit_char((n % 10) as int)]
    }
}

/// The decimal rendering of an integer, with a leading minus sign when
/// negative.
pub open spec fn int_string(i: int) -> Seq<char> {
    if i < 0 {
        seq!['-'] + nat_digits((-i) as nat)
    } else {
        nat_digits(i as nat)
    }
}

/// The key a table's schema is stored under.
pub open spec fn table_key(table: Seq<char>) -> Seq<char> {
    "table_"@ + table
}

/// The common prefix of all row keys of one table.
pub open spec fn data_prefix(table: Seq<char>) -> Seq<char> {
    "data_"@ + table + "_"@
}

/// The key one row is stored under.
pub open spec fn data_key(table: Seq<char>, key: int) -> Seq<char> {
    data_prefix(table) + int_string(key)
}

/// Append one decimal digit to the string.
fn push_digit(s: &mut String, d: u8)
    requires
        d < 10,
    ensures
        final(s)@ == old(s)@ + seq![digit_char(d as int)],
{
    let lit: &str = match d {
        0 => "0",
        1 => "1",
        2 => "2",
        3 => "3",
        4 => "4",
        5 => "5",
        6 => "6",
        7 => "7",
        8 => "8",
        _ => "9",
    };
    proof {
        reveal_strlit("0");
        reveal_strlit("1");
        reveal_strlit("2");
        reveal_strlit("3");
        reveal_strlit("4");
        reveal_strlit("5");
        reveal_strlit("6");
        reveal_strlit("7");
        reveal_strlit("8");
        reveal_strlit("9");
        assert(lit@ =~= seq![digit_char(d as int)]);
    }
    s.append(lit);
}

/// Append the decimal digits of the number to the string.
fn append_dec(s: &mut String, m: u64)
    ensures
        final(s)@ == old(s)@ + nat_digits(m as nat),
    decreases m,
{
    if m < 10 {
        push_digit(s, m as u8);
    } else {
        append_dec(s, m / 10);
        push_digit(s, (m % 10) as u8);
        proof {
            assert(old(s)@ + nat_digits((m / 10) as nat) + seq![
                digit_char((m % 10) as int),
            ] =~= old(s)@ + (nat_digits((m / 10) as nat) + seq![digit_char((m % 10) as int)]));
        }
    }
}

/// Append the decimal rendering of the integer to the string.
fn append_int(s: &mut String, i: i32)
    ensures
        final(s)@ == old(s)@ + int_string(i as int),
{
    if i < 0 {
        s.append("-");
        proof {
            reveal_strlit("-");
        }
        let m: u64 = (-(i as i64)) as u64;
        append_dec(s, m);
        proof {
            assert(old(s)@ + "-"@ + nat_digits(m as nat) =~= old(s)@ + (seq!['-'] + nat_digits(
                ((i as int) * -1) as nat,
            )));
        }
    } else {
        append_dec(s, i as u64);
    }
}

/// Build the key the table's schema lives under.
pub fn make_table_key(table_name: &TableName) -> (s: String)
    ensures
        s@ == table_key(table_name@),
{
    let mut s = String::new();
    s.append("table_");
    s.append(table_name.0.as_str());
    proof {
        assert(Seq::<char>::empty() + "table_"@ + table_name@ =~= table_key(table_name@));
    }
    s
}

/// Build the common prefix of the table's row keys.
pub fn make_data_prefix(table_name: &TableName) -> (s: String)
    ensures
        s@ == data_prefix(table_name@),
{
    let mut s = String::new();
    s.append("data_");
    s.append(table_name.0.as_str());
    s.append("_");
    proof {
        assert(Seq::<char>::empty() + "data_"@ + table_name@ + "_"@ =~= data_prefix(table_name@));
    }
    s
}

/// Build the key one row lives under.
pub fn make_data_key(table_name: &TableName, key: i32) -> (s: String)
    ensures
        s@ == data_key(table_name@, key as int),
{
    let mut s = make_data_prefix(table_name);
    append_int(&mut s, key);
    s
}

// ---------------------------------------------------------------------
// The store
// ---------------------------------------------------------------------

/// What one key binds: a table's schema, or one row of values.
#[derive(Debug, PartialEq)]
pub enum StoreValue {
    Schema(Table),
    Row(Row),
}

/// Spec-level model of a stored value.
pub enum StoreValueV {
    Schema(TableV),
    Row(RowV),
}

impl View for StoreValue {
    type V = StoreValueV;

    open spec fn view(&self) -> StoreValueV {
        match self {
            StoreValue::Schema(t) => StoreValueV::Schema(t@),
            StoreValue::Row(r) => StoreValueV::Row(r@),
        }
    }
}

impl StoreValue {
    /// A copy denoting the same stored value.
    pub fn dup(&self) -> (r: StoreValue)
        ensures
            r@ == self@,
    {
        match self {
            StoreValue::Schema(t) => StoreValue::Schema(t.dup()),
            StoreValue::Row(row) => StoreValue::Row(row.dup()),
        }
    }
}

/// Entries are strictly ascending in lexical key order.
pub open spec fn store_sorted<V>(m: Seq<(Seq<char>, V)>) -> bool {
    forall|i: int, j: int| 0 <= i < j < m.len() ==> lex_lt(m[i].0, m[j].0)
}

/// Sorted insertion: place the new pair before the first key it is not
/// above, replacing that key's pair when equal.
pub open spec fn store_put<V>(m: Seq<(Seq<char>, V)>, k: Seq<char>, v: V) -> Seq<(Seq<char>, V)>
    decreases m.len(),
{
    if m.len() == 0 {
        seq![(k, v)]
    } else if lex_lt(k, m[0].0) {
        seq![(k, v)] + m
    } else if m[0].0 == k {
        seq![(k, v)] + m.drop_first()
    } else {
        seq![m[0]] + store_put(m.drop_first(), k, v)
    }
}

/// The entries whose key properly extends the prefix, in entry order.
pub open spec fn prefix_entries<V>(m: Seq<(Seq<char>, V)>, p: Seq<char>) -> Seq<(Seq<char>, V)>
    decreases m.len(),
{
    if m.len() == 0 {
        Seq::empty()
    } else {
        prefix_entries(m.drop_last(), p) + if is_strict_prefix(p, m.last().0) {
            seq![m.last()]
        } else {
            Seq::empty()
        }
    }
}

/// `store_put` of a key present at entry `i`, all earlier keys below it,
/// replaces that entry.
proof fn lemma_store_put_found<V>(m: Seq<(Seq<char>, V)>, k: Seq<char>, v: V, i: int)
    requires
        0 <= i < m.len(),
        m[i].0 == k,
        forall|j: int| 0 <= j < i ==> lex_lt(m[j].0, k),
    ensures
        store_put(m, k, v) == m.update(i, (k, v)),
    decreases m.len(),
{
    lemma_lex_asymmetric(k, k);
    if i == 0 {
        assert(store_put(m, k, v) =~= m.update(0, (k, v)));
    } else {
        lemma_lex_asymmetric(m[0].0, k);
        lemma_store_put_found(m.drop_first(), k, v, i - 1);
        assert(store_put(m, k, v) =~= m.update(i, (k, v)));
    }
}

/// `store_put` of a key that belongs between entries `i - 1` and `i`
/// inserts the new pair at position `i`.
proof fn lemma_store_put_at<V>(m: Seq<(Seq<char>, V)>, k: Seq<char>, v: V, i: int)
    requires
        0 <= i <= m.len(),
        forall|j: int| 0 <= j < i ==> lex_lt(m[j].0, k),
        i < m.len() ==> !lex_lt(m[i].0, k) && m[i].0 != k,
    ensures
        store_put(m, k, v) == m.take(i) + seq![(k, v)] + m.skip(i),
    decreases m.len(),
{
    if i == 0 {
        if m.len() == 0 {
            assert(store_put(m, k, v) =~= m.take(0) + seq![(k, v)] + m.skip(0));
        } else {
            lemma_lex_connected(k, m[0].0);
            assert(store_put(m, k, v) =~= m.take(0) + seq![(k, v)] + m.skip(0));
        }
    } else {
        lemma_lex_asymmetric(m[0].0, k);
        lemma_store_put_at(m.drop_first(), k, v, i - 1);
        assert(store_put(m, k, v) =~= m.take(i) + seq![(k, v)] + m.skip(i));
    }
}

/// Every key of `store_put(m, k, v)` is `k` or a key of `m`, and the length
/// grows by at most one.
proof fn lemma_store_put_keys<V>(m: Seq<(Seq<char>, V)>, k: Seq<char>, v: V)
    ensures
        m.len() <= store_put(m, k, v).len() <= m.len() + 1,
        forall|j: int|
            0 <= j < store_put(m, k, v).len() ==> store_put(m, k, v)[j].0 == k || exists|l: int|
                0 <= l < m.len() && m[l].0 == #[trigger] store_put(m, k, v)[j].0,
    decreases m.len(),
{
    if m.len() == 0 || lex_lt(k, m[0].0) || m[0].0 == k {
    } else {
        lemma_store_put_keys(m.drop_first(), k, v);
        assert forall|j: int|
            0 <= j < store_put(m, k, v).len() implies store_put(m, k, v)[j].0 == k || exists|l: int|
            0 <= l < m.len() && m[l].0 == #[trigger] store_put(m, k, v)[j].0 by {
            if j == 0 {
                assert(m[0].0 == store_put(m, k, v)[j].0);
            } else {
                let inner = store_put(m.drop_first(), k, v);
                assert(store_put(m, k, v)[j] == inner[j - 1]);
                if inner[j - 1].0 != k {
                    let l = choose|l: int|
                        0 <= l < m.drop_first().len() && m.drop_first()[l].0 == inner[j - 1].0;
                    assert(m[l + 1].0 == store_put(m, k, v)[j].0);
                }
            }
        }
    }
}

/// Sorted insertion keeps the store sorted.
pub proof fn lemma_store_put_sorted<V>(m: Seq<(Seq<char>, V)>, k: Seq<char>, v: V)
    requires
        store_sorted(m),
    ensures
        store_sorted(store_put(m, k, v)),
    decreases m.len(),
{
    let r = store_put(m, k, v);
    if m.len() == 0 {
    } else if lex_lt(k, m[0].0) {
        assert forall|i: int, j: int| 0 <= i < j < r.len() implies lex_lt(r[i].0, r[j].0) by {
            if i == 0 {
                if j > 1 {
                    lemma_lex_transitive(k, m[0].0, m[j - 1].0);
                }
            }
        }
    } else if m[0].0 == k {
        assert forall|i: int, j: int| 0 <= i < j < r.len() implies lex_lt(r[i].0, r[j].0) by {
            if i == 0 {
                assert(r[j].0 == m[j].0);
            }
        }
    } else {
        assert(store_sorted(m.drop_first()));
        lemma_store_put_sorted(m.drop_first(), k, v);
        lemma_store_put_keys(m.drop_first(), k, v);
        lemma_lex_connected(k, m[0].0);
        let inner = store_put(m.drop_first(), k, v);
        assert forall|i: int, j: int| 0 <= i < j < r.len() implies lex_lt(r[i].0, r[j].0) by {
            if i == 0 {
                assert(r[j].0 == inner[j - 1].0);
                if inner[j - 1].0 != k {
                    let l = choose|l: int|
                        0 <= l < m.drop_first().len() && m.drop_first()[l].0 == inner[j - 1].0;
                    assert(lex_lt(m[0].0, m[l + 1].0));
                }
            } else {
                assert(r[i].0 == inner[i - 1].0 && r[j].0 == inner[j - 1].0);
            }
        }
    }
}

/// `map_get` after `store_put`: the stored value under the key itself, and
/// the old bindings under every other key.
pub proof fn lemma_store_put_get<V>(m: Seq<(Seq<char>, V)>, k: Seq<char>, v: V, k2: Seq<char>)
    ensures
        map_get(store_put(m, k, v), k2) == if k2 == k {
            Some(v)
        } else {
            map_get(m, k2)
        },
    decreases m.len(),
{
    let r = store_put(m, k, v);
    if m.len() == 0 {
    } else if lex_lt(k, m[0].0) {
        assert(r.drop_first() =~= m);
    } else if m[0].0 == k {
        if k2 != k {
            assert(r.drop_first() =~= m.drop_first());
        }
    } else {
        lemma_store_put_get(m.drop_first(), k, v, k2);
        assert(r[0] == m[0]);
        assert(r.drop_first() =~= store_put(m.drop_first(), k, v));
    }
}

/// The ordered store itself.
#[derive(Debug, PartialEq)]
pub struct Store {
    entries: Vec<(String, StoreValue)>,
}

impl View for Store {
    type V = Seq<(Seq<char>, StoreValueV)>;

    closed spec fn view(&self) -> Seq<(Seq<char>, StoreValueV)> {
        pairs_view(self.entries@)
    }
}

impl Store {
    /// The store is well formed when its entries are sorted by key.
    pub open spec fn wf(&self) -> bool {
        store_sorted(self@)
    }

    /// An empty store.
    pub fn new() -> (r: Store)
        ensures
            r@ == Seq::<(Seq<char>, StoreValueV)>::empty(),
            r.wf(),
    {
        let r = Store { entries: Vec::new() };
        proof {
            assert(r@ =~= Seq::<(Seq<char>, StoreValueV)>::empty());
        }
        r
    }

    /// The first position whose key is not below `key`.
    fn position_for(&self, key: &str) -> (i: usize)
        ensures
            i <= self@.len(),
            forall|j: int| 0 <= j < i ==> lex_lt(self@[j].0, key@),
            i < self@.len() ==> !lex_lt(self@[i as int].0, key@),
    {
        let n = self.entries.len();
        for i in 0..n
            invariant
                n == self@.len(),
                forall|j: int| 0 <= j < i ==> lex_lt(self@[j].0, key@),
        {
            if !str_lt(self.entries[i].0.as_str(), key) {
                return i;
            }
        }
        n
    }

    /// Bind the key to the value, keeping the entries in key order.
    pub fn put(&mut self, key: String, value: StoreValue)
        ensures
            final(self)@ == store_put(old(self)@, key@, value@),
            old(self).wf() ==> final(self).wf(),
    {
        proof {
            if old(self).wf() {
                lemma_store_put_sorted(old(self)@, key@, value@);
            }
        }
        let i = self.position_for(key.as_str());
        if i < self.entries.len() && str_eq(self.entries[i].0.as_str(), key.as_str()) {
            proof {
                lemma_store_put_found(old(self)@, key@, value@, i as int);
            }
            self.entries[i] = (key, value);
            proof {
                assert(final(self)@ =~= old(self)@.update(i as int, (key@, value@)));
            }
        } else {
            proof {
                lemma_store_put_at(old(self)@, key@, value@, i as int);
            }
            self.entries.insert(i, (key, value));
            proof {
                assert(final(self)@ =~= old(self)@.take(i as int) + seq![(key@, value@)] + old(
                    self,
                )@.skip(i as int));
            }
        }
    }

    /// Look one key up.
    pub fn get(&self, key: &str) -> (r: Option<&StoreValue>)
        ensures
            match r {
                Some(v) => map_get(self@, key@) == Some(v@),
                None => map_get(self@, key@) is None,
            },
    {
        let n = self.entries.len();
        proof {
            assert(self@.skip(0) =~= self@);
        }
        for i in 0..n
            invariant
                n == self@.len(),
                map_get(self@, key@) == map_get(self@.skip(i as int), key@),
        {
            proof {
                assert(self@.skip(i as int)[0] == self@[i as int]);
            }
            if str_eq(self.entries[i].0.as_str(), key) {
                return Some(&self.entries[i].1);
            }
            proof {
                assert(self@.skip(i as int).drop_first() =~= self@.skip(i as int + 1));
            }
        }
        None
    }

    /// All entries whose key properly extends the prefix, in entry order —
    /// with sorted entries, that is ascending key order.
    pub fn prefix_scan(&self, prefix: &str) -> (r: Vec<(String, StoreValue)>)
        ensures
            pairs_view(r@) == prefix_entries(self@, prefix@),
    {
        let n = self.entries.len();
        let mut out: Vec<(String, StoreValue)> = Vec::new();
        proof {
            assert(pairs_view(out@) =~= prefix_entries(self@.take(0), prefix@));
        }
        for i in 0..n
            invariant
                n == self@.len(),
                pairs_view(out@) == prefix_entries(self@.take(i as int), prefix@),
        {
            proof {
                assert(self@.take(i as int + 1).drop_last() =~= self@.take(i as int));
                assert(self@.take(i as int + 1).last() == self@[i as int]);
            }
            let ghost prev = out@;
            if str_strict_prefix(prefix, self.entries[i].0.as_str()) {
                out.push((self.entries[i].0.clone(), self.entries[i].1.dup()));
                proof {
                    assert(pairs_view(out@) =~= pairs_view(prev) + seq![self@[i as int]]);
                }
            }
        }
        proof {
            assert(self@.take(n as int) =~= self@);
        }
        out
    }
}

// ---------------------------------------------------------------------
// Tables and rows in the store
// ---------------------------------------------------------------------

/// The row as stored: the inserted values, with the constructor added under
/// the reserved `_type` column when the row belongs to a tagged union.
pub open spec fn stored_row(v: InsertValueV) -> RowV {
    match v {
        InsertValueV::Single(values) => values,
        InsertValueV::Multiple(ctor, values) => map_put(
            values,
            "_type"@,
            ScalarValueV::String(ctor),
        ),
    }
}

/// Build the row as it is stored, per `stored_row`.
fn make_stored_row(value: &InsertValue) -> (r: Row)
    ensures
        r@ == stored_row(value@),
{
    match value {
        InsertValue::Single { values } => values.dup(),
        InsertValue::Multiple { constructor, values } => {
            let mut row = values.dup();
            let tag = ColumnName(String::new().concat("_type"));
            row.insert(tag, ScalarValue::String(constructor.0.clone()));
            row
        },
    }
}

/// Store one row under its `data_<table>_<key>` key, without validation.
pub fn insert(store: &mut Store, ins: &Insert) -> (r: i32)
    ensures
        final(store)@ == store_put(
            old(store)@,
            data_key(ins@.table, ins@.key as int),
            StoreValueV::Row(stored_row(ins@.value)),
        ),
        old(store).wf() ==> final(store).wf(),
        r == 1,
{
    let key = make_data_key(&ins.table, ins.key);
    let row = make_stored_row(&ins.value);
    store.put(key, StoreValue::Row(row));
    1
}

/// Store a table's schema under its `table_<name>` key, overwriting any
/// prior definition of the same name.
pub fn insert_table(store: &mut Store, table: &Table) -> (r: i32)
    ensures
        final(store)@ == store_put(
            old(store)@,
            table_key(table@.name),
            StoreValueV::Schema(table@),
        ),
        old(store).wf() ==> final(store).wf(),
        r == 1,
{
    let key = make_table_key(&table.name);
    store.put(key, StoreValue::Schema(table.dup()));
    1
}

/// Fetch the schema stored for the table, if there is one.
pub fn lookup_table(store: &Store, table_name: &TableName) -> (r: Option<Table>)
    ensures
        match r {
            Some(t) => map_get(store@, table_key(table_name@)) == Some(StoreValueV::Schema(t@)),
            None => !(map_get(store@, table_key(table_name@)) matches Some(
                StoreValueV::Schema(_),
            )),
        },
{
    let key = make_table_key(table_name);
    match store.get(key.as_str()) {
        Some(StoreValue::Schema(t)) => Some(t.dup()),
        _ => None,
    }
}

/// Whether the key is strictly longer than the prefix and starts with its
/// bytes: the boundary check a prefix scan applies to each candidate key.
pub fn matches_prefix(prefix: &str, key: &[u8]) -> (r: bool)
    ensures
        r == (key@.len() > prefix.spec_bytes().len() && key@.subrange(
            0,
            prefix.spec_bytes().len() as int,
        ) == prefix.spec_bytes()),
{
    let pb = prefix.as_bytes();
    if key.len() <= pb.len() {
        return false;
    }
    for i in 0..pb.len()
        invariant
            pb@ == prefix.spec_bytes(),
            pb@.len() < key@.len(),
            forall|j: int| 0 <= j < i ==> key@[j] == pb@[j],
    {
        if key[i] != pb[i] {
            proof {
                assert(key@.subrange(0, pb@.len() as int)[i as int] == key@[i as int]);
            }
            return false;
        }
    }
    proof {
        assert(key@.subrange(0, pb@.len() as int) =~= pb@);
    }
    true
}

} // verus!
