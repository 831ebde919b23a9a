//! Array-mode queries (rows as arrays of cells) and column-cached queries
//! that turn array rows back into objects keyed by column name.

use vstd::prelude::*;
use vstd::string::StringExecFns;

use crate::modules::extensions::cache::Cache;
use crate::modules::sqlite_core::database::{
    is_db_open, next_counter, next_message_id, statement_issued, statement_request, statement_sent,
    Database,
};
use crate::modules::sqlite_core::error::DbError;
use crate::modules::sqlite_core::protocol::{exec_args, Command, ExecArgs, RowMode};

verus! {

// ==================== ROW OBJECTS ====================

/// One property of a result row object.
pub struct Property<V> {
    /// The column name.
    pub key: String,
    /// The cell.
    pub value: V,
}

/// A row object as a sequence of (key, value) pairs in insertion order.
pub open spec fn props_view<V>(p: Seq<Property<V>>) -> Seq<(Seq<char>, V)> {
    p.map_values(|x: Property<V>| (x.key@, x.value))
}

/// Whether `key` is a property of `o`.
pub open spec fn has_key<V>(o: Seq<(Seq<char>, V)>, key: Seq<char>) -> bool {
    exists|i: int| 0 <= i < o.len() && #[trigger] o[i].0 == key
}

/// Whether `i` is the first position of `key` in `o`.
pub open spec fn first_key_at<V>(o: Seq<(Seq<char>, V)>, key: Seq<char>, i: int) -> bool {
    &&& 0 <= i < o.len()
    &&& o[i].0 == key
    &&& forall|j: int| 0 <= j < i ==> #[trigger] o[j].0 != key
}

/// The position of `key` in `o` (meaningful when `has_key(o, key)`).
pub open spec fn key_index<V>(o: Seq<(Seq<char>, V)>, key: Seq<char>) -> int {
    choose|i: int| first_key_at(o, key, i)
}

/// Each key occurs once.
pub open spec fn unique_keys<V>(o: Seq<(Seq<char>, V)>) -> bool {
    forall|i: int, j: int|
        0 <= i < o.len() && 0 <= j < o.len() && i != j ==> #[trigger] o[i].0 != #[trigger] o[j].0
}

/// JavaScript's `obj[key] = value` on a plain object: an existing property
/// keeps its place and takes the new value; a new one goes last.
pub open spec fn assign<V>(o: Seq<(Seq<char>, V)>, key: Seq<char>, value: V) -> Seq<
    (Seq<char>, V),
> {
    if has_key(o, key) {
        o.update(key_index(o, key), (key, value))
    } else {
        o.push((key, value))
    }
}

/// `obj[key]`: the value of the property, if there is one.
pub open spec fn lookup<V>(o: Seq<(Seq<char>, V)>, key: Seq<char>) -> Option<V> {
    if has_key(o, key) {
        Some(o[key_index(o, key)].1)
    } else {
        None
    }
}

/// Sets `obj[key] = value`.
pub fn set_property<V>(obj: &mut Vec<Property<V>>, key: String, value: V)
    ensures
        props_view(final(obj)@) == assign(props_view(old(obj)@), key@, value),
{
    let ghost o = props_view(obj@);
    let mut i: usize = 0;
    while i < obj.len()
        invariant
            i <= obj@.len(),
            o == props_view(obj@),
            obj@ == old(obj)@,
            forall|j: int| 0 <= j < i ==> obj@[j].key@ != key@,
        decreases obj@.len() - i,
    {
        if obj[i].key == key {
            proof {
                assert(first_key_at(o, key@, i as int));
                assert(has_key(o, key@));
                let k = key_index(o, key@);
                assert(first_key_at(o, key@, k));
                if k < i {
                    assert(o[k].0 != key@);
                }
                if k > i {
                    assert(o[i as int].0 != key@);
                }
                assert(k == i);
                assert(assign(o, key@, value) == o.update(i as int, (key@, value)));
            }
            let ghost kv = key@;
            obj.set(i, Property { key, value });
            proof {
                assert(props_view(obj@) =~= o.update(i as int, (kv, value)));
            }
            return;
        }
        i = i + 1;
    }
    proof {
        if has_key(o, key@) {
            let j = choose|j: int| 0 <= j < o.len() && #[trigger] o[j].0 == key@;
            assert(obj@[j].key@ != key@);
        }
    }
    let ghost k = key@;
    obj.push(Property { key, value });
    assert(props_view(obj@) =~= o.push((k, value)));
}

/// Assigning a key makes it read back the value assigned, leaves every
/// other key's value as it was, and keeps keys unique: the law of a
/// JavaScript object property write.
pub proof fn lemma_assign_lookup<V>(o: Seq<(Seq<char>, V)>, key: Seq<char>, value: V, other: Seq<
    char,
>)
    requires
        unique_keys(o),
    ensures
        unique_keys(assign(o, key, value)),
        lookup(assign(o, key, value), key) == Some(value),
        other != key ==> lookup(assign(o, key, value), other) == lookup(o, other),
{
    let a = assign(o, key, value);
    if has_key(o, key) {
        let w = choose|i: int| 0 <= i < o.len() && #[trigger] o[i].0 == key;
        lemma_first_key_exists(o, key, w);
        let k = key_index(o, key);
        assert(first_key_at(o, key, k));
        assert(a[k].0 == key);
        assert(has_key(a, key));
        assert(first_key_at(a, key, k)) by {
            assert forall|j: int| 0 <= j < k implies #[trigger] a[j].0 != key by {
                assert(a[j] == o[j]);
            }
        }
        lemma_first_key_unique(a, key, k, key_index(a, key));
        if other != key {
            if has_key(o, other) {
                let w2 = choose|i: int| 0 <= i < o.len() && #[trigger] o[i].0 == other;
                lemma_first_key_exists(o, other, w2);
                let m = key_index(o, other);
                assert(first_key_at(o, other, m));
                assert(m != k);
                assert(first_key_at(a, other, m)) by {
                    assert forall|j: int| 0 <= j < m implies #[trigger] a[j].0 != other by {
                        if j == k {
                        } else {
                            assert(a[j] == o[j]);
                        }
                    }
                }
                assert(has_key(a, other));
                lemma_first_key_unique(a, other, m, key_index(a, other));
            } else {
                assert(!has_key(a, other)) by {
                    if has_key(a, other) {
                        let j = choose|j: int| 0 <= j < a.len() && #[trigger] a[j].0 == other;
                        if j != k {
                            assert(o[j].0 == other);
                        }
                    }
                }
            }
        }
    } else {
        let n = o.len() as int;
        assert(a[n].0 == key);
        assert(first_key_at(a, key, n)) by {
            assert forall|j: int| 0 <= j < n implies #[trigger] a[j].0 != key by {
                assert(a[j] == o[j]);
                if a[j].0 == key {
                    assert(o[j].0 == key);
                }
            }
        }
        assert(has_key(a, key));
        lemma_first_key_unique(a, key, n, key_index(a, key));
        if other != key {
            if has_key(o, other) {
                let w2 = choose|i: int| 0 <= i < o.len() && #[trigger] o[i].0 == other;
                lemma_first_key_exists(o, other, w2);
                let m = key_index(o, other);
                assert(first_key_at(o, other, m));
                assert(first_key_at(a, other, m)) by {
                    assert forall|j: int| 0 <= j < m implies #[trigger] a[j].0 != other by {
                        assert(a[j] == o[j]);
                    }
                }
                assert(has_key(a, other));
                lemma_first_key_unique(a, other, m, key_index(a, other));
            } else {
                assert(!has_key(a, other)) by {
                    if has_key(a, other) {
                        let j = choose|j: int| 0 <= j < a.len() && #[trigger] a[j].0 == other;
                        if j != n {
                            assert(o[j].0 == other);
                        }
                    }
                }
            }
        }
    }
}

proof fn lemma_first_key_unique<V>(o: Seq<(Seq<char>, V)>, key: Seq<char>, i: int, j: int)
    requires
        first_key_at(o, key, i),
        first_key_at(o, key, j) || j == key_index(o, key),
    ensures
        i == j,
        first_key_at(o, key, key_index(o, key)),
        key_index(o, key) == i,
{
    assert(first_key_at(o, key, key_index(o, key)));
    let k = key_index(o, key);
    if k < i {
        assert(o[k].0 != key);
    }
    if k > i {
        assert(o[i].0 != key);
    }
    if first_key_at(o, key, j) {
        if j < i {
            assert(o[j].0 != key);
        }
        if j > i {
            assert(o[i].0 != key);
        }
    }
}

proof fn lemma_first_key_exists<V>(o: Seq<(Seq<char>, V)>, key: Seq<char>, w: int)
    requires
        0 <= w < o.len(),
        o[w].0 == key,
    ensures
        first_key_at(o, key, key_index(o, key)),
    decreases w,
{
    if forall|j: int| 0 <= j < w ==> #[trigger] o[j].0 != key {
        assert(first_key_at(o, key, w));
    } else {
        let j = choose|j: int| 0 <= j < w && #[trigger] o[j].0 == key;
        lemma_first_key_exists(o, key, j);
    }
}


/// The object JavaScript builds from a row of cells: for each column in
/// order, `obj[column] = cell`, over the first `n` columns.
pub open spec fn build_object<V>(cols: Seq<Seq<char>>, vals: Seq<V>, n: nat) -> Seq<
    (Seq<char>, V),
>
    decreases n,
{
    if n == 0 {
        seq![]
    } else {
        assign(build_object(cols, vals, (n - 1) as nat), cols[n - 1], vals[n - 1])
    }
}

/// The row object of `vals` under `cols`: columns past the end of the row
/// are left out, cells past the last column are dropped.
pub open spec fn row_object<V>(cols: Seq<Seq<char>>, vals: Seq<V>) -> Seq<(Seq<char>, V)> {
    build_object(cols, vals, if cols.len() <= vals.len() { cols.len() } else { vals.len() })
}

proof fn lemma_build_object_keys<V>(cols: Seq<Seq<char>>, vals: Seq<V>, m: nat)
    requires
        m <= cols.len(),
        m <= vals.len(),
    ensures
        unique_keys(build_object(cols, vals, m)),
        forall|k: Seq<char>|
            #[trigger] lookup(build_object(cols, vals, m), k) is Some <==> exists|j: int|
                0 <= j < m && cols[j] == k,
        forall|j: int|
            0 <= j < m && (forall|t: int| j < t < m ==> cols[t] != cols[j]) ==> #[trigger] lookup(
                build_object(cols, vals, m),
                cols[j],
            ) == Some(vals[j]),
    decreases m,
{
    if m == 0 {
        let b = build_object(cols, vals, 0);
        assert forall|k: Seq<char>| #[trigger] lookup(b, k) is Some <==> exists|j: int|
            0 <= j < 0 && cols[j] == k by {
            assert(!has_key(b, k));
        }
    } else {
        let n = (m - 1) as nat;
        lemma_build_object_keys(cols, vals, n);
        let b = build_object(cols, vals, n);
        let key = cols[n as int];
        let a = build_object(cols, vals, m);
        assert(a == assign(b, key, vals[n as int]));
        lemma_assign_lookup(b, key, vals[n as int], key);
        assert forall|k: Seq<char>| #[trigger] lookup(a, k) is Some <==> exists|j: int|
            0 <= j < m && cols[j] == k by {
            lemma_assign_lookup(b, key, vals[n as int], k);
            if k != key {
                if exists|j: int| 0 <= j < m && cols[j] == k {
                    let j = choose|j: int| 0 <= j < m && cols[j] == k;
                    assert(j < n);
                }
            } else {
                assert(cols[n as int] == k);
            }
        }
        assert forall|j: int|
            0 <= j < m && (forall|t: int| j < t < m ==> cols[t] != cols[j]) implies #[trigger] lookup(
            a,
            cols[j],
        ) == Some(vals[j]) by {
            lemma_assign_lookup(b, key, vals[n as int], cols[j]);
            if j < n {
                assert(cols[n as int] != cols[j]);
                assert(forall|t: int| j < t < n ==> cols[t] != cols[j]);
                assert(lookup(b, cols[j]) == Some(vals[j]));
            }
        }
    }
}

/// The row object keys each cell by its column, over the columns that
/// have a cell: every such column's name is a key, holding the cell of
/// the last column with that name; no other key occurs; and each key
/// occurs once, so there are as many keys as distinct names among those
/// columns.
pub proof fn lemma_row_object_keys<V>(cols: Seq<Seq<char>>, vals: Seq<V>)
    ensures
        unique_keys(row_object(cols, vals)),
        forall|k: Seq<char>|
            #[trigger] lookup(row_object(cols, vals), k) is Some <==> exists|j: int|
                0 <= j < cols.len() && j < vals.len() && cols[j] == k,
        forall|j: int|
            0 <= j < cols.len() && j < vals.len() && (forall|t: int|
                j < t < cols.len() && t < vals.len() ==> cols[t] != cols[j]) ==> #[trigger] lookup(
                row_object(cols, vals),
                cols[j],
            ) == Some(vals[j]),
{
    let n: nat = if cols.len() <= vals.len() {
        cols.len()
    } else {
        vals.len()
    };
    lemma_build_object_keys(cols, vals, n);
}

/// The texts of a list of strings.
pub open spec fn names_view(cols: Seq<String>) -> Seq<Seq<char>> {
    cols.map_values(|c: String| c@)
}

/// The view of the rows read from a reply: `None` for an entry that is not
/// an array.
pub open spec fn rows_view<V>(rows: Seq<Option<Vec<V>>>) -> Seq<Option<Seq<V>>> {
    rows.map_values(
        |r: Option<Vec<V>>|
            match r {
                Some(v) => Some(v@),
                None => None,
            },
    )
}

/// The row objects of the array rows among `rows`, in order; entries that
/// are not arrays are skipped.
pub open spec fn row_objects<V>(rows: Seq<Option<Seq<V>>>, cols: Seq<Seq<char>>) -> Seq<
    Seq<(Seq<char>, V)>,
>
    decreases rows.len(),
{
    if rows.len() == 0 {
        seq![]
    } else {
        let prev = row_objects(rows.drop_last(), cols);
        match rows.last() {
            Some(r) => prev.push(row_object(cols, r)),
            None => prev,
        }
    }
}

/// The view of a list of row objects.
pub open spec fn objects_view<V>(objs: Seq<Vec<Property<V>>>) -> Seq<Seq<(Seq<char>, V)>> {
    objs.map_values(|o: Vec<Property<V>>| props_view(o@))
}

/// The rows `convert_arrays_to_objects` returns for what it read of a reply:
/// none when the reply held no `result.resultRows` array.
pub open spec fn converted_rows<V>(rows: Option<Seq<Option<Seq<V>>>>, cols: Seq<Seq<char>>) -> Seq<
    Seq<(Seq<char>, V)>,
> {
    match rows {
        Some(rs) => row_objects(rs, cols),
        None => seq![],
    }
}

/// The view of optional reply rows.
pub open spec fn opt_rows_view<V>(rows: Option<Vec<Option<Vec<V>>>>) -> Option<
    Seq<Option<Seq<V>>>,
> {
    match rows {
        Some(v) => Some(rows_view(v@)),
        None => None,
    }
}

fn clone_names(names: &Vec<String>) -> (r: Vec<String>)
    ensures
        names_view(r@) == names_view(names@),
{
    let mut r: Vec<String> = Vec::new();
    let mut i: usize = 0;
    while i < names.len()
        invariant
            i <= names@.len(),
            r@.len() == i,
            names_view(r@) == names_view(names@).take(i as int),
        decreases names@.len() - i,
    {
        let c = names[i].clone();
        assert(c@ == names@[i as int]@);
        let ghost prev = r@;
        r.push(c);
        proof {
            assert forall|k: int| 0 <= k < i + 1 implies names_view(r@)[k] == names_view(
                names@,
            )[k] by {
                if k < i {
                    assert(r@[k] == prev[k]);
                    assert(names_view(prev)[k] == names_view(names@).take(i as int)[k]);
                }
            }
        }
        i = i + 1;
        assert(names_view(r@) =~= names_view(names@).take(i as int));
    }
    assert(names_view(names@).take(i as int) =~= names_view(names@));
    r
}

/// Turns a row of cells into an object keyed by `column_names`.
pub fn row_to_object<V>(column_names: &Vec<String>, row: Vec<V>) -> (obj: Vec<Property<V>>)
    ensures
        props_view(obj@) == row_object(names_view(column_names@), row@),
        unique_keys(props_view(obj@)),
        forall|k: Seq<char>|
            #[trigger] lookup(props_view(obj@), k) is Some <==> exists|j: int|
                0 <= j < column_names@.len() && j < row@.len() && names_view(column_names@)[j]
                    == k,
        forall|j: int|
            0 <= j < column_names@.len() && j < row@.len() && (forall|t: int|
                j < t < column_names@.len() && t < row@.len() ==> names_view(column_names@)[t]
                    != names_view(column_names@)[j]) ==> #[trigger] lookup(
                props_view(obj@),
                names_view(column_names@)[j],
            ) == Some(row@[j]),
{
    proof {
        lemma_row_object_keys(names_view(column_names@), row@);
    }
    let ghost orig = row@;
    let ghost cols = names_view(column_names@);
    let mut row = row;
    let n = if column_names.len() <= row.len() {
        column_names.len()
    } else {
        row.len()
    };
    let mut obj: Vec<Property<V>> = Vec::new();
    let mut j: usize = 0;
    while j < n
        invariant
            j <= n,
            n <= column_names@.len(),
            n <= orig.len(),
            n == (if cols.len() <= orig.len() { cols.len() } else { orig.len() }),
            cols == names_view(column_names@),
            row@ == orig.subrange(j as int, orig.len() as int),
            props_view(obj@) == build_object(cols, orig, j as nat),
        decreases n - j,
    {
        let v = row.remove(0);
        let key = column_names[j].clone();
        set_property(&mut obj, key, v);
        j = j + 1;
        assert(row@ =~= orig.subrange(j as int, orig.len() as int));
    }
    obj
}

/// Rebuilds result rows as objects: each row of `rows` that is an array
/// becomes an object keyed by `column_names`; entries that are not arrays
/// are skipped, and `None` (no `result.resultRows` array in the reply)
/// gives no rows.
pub fn convert_arrays_to_objects<V>(
    rows: Option<Vec<Option<Vec<V>>>>,
    column_names: Vec<String>,
) -> (out: Vec<Vec<Property<V>>>)
    ensures
        objects_view(out@) == converted_rows(opt_rows_view(rows), names_view(column_names@)),
{
    let mut out: Vec<Vec<Property<V>>> = Vec::new();
    match rows {
        None => {
            assert(objects_view(out@) =~= seq![]);
            out
        },
        Some(rows) => {
            let ghost orig = rows_view(rows@);
            let ghost cols = names_view(column_names@);
            let mut rows = rows;
            let n = rows.len();
            let mut i: usize = 0;
            assert(objects_view(out@) =~= row_objects(orig.take(0), cols));
            while i < n
                invariant
                    i <= n,
                    n == orig.len(),
                    cols == names_view(column_names@),
                    rows_view(rows@) == orig.subrange(i as int, orig.len() as int),
                    rows@.len() == n - i,
                    objects_view(out@) == row_objects(orig.take(i as int), cols),
                decreases n - i,
            {
                let ghost before = rows@;
                assert(rows_view(before)[0] == orig[i as int]);
                let r = rows.remove(0);
                assert(r == before[0]);
                assert(orig.take(i + 1).drop_last() =~= orig.take(i as int));
                assert(orig.take(i + 1).last() == orig[i as int]);
                match r {
                    Some(cells) => {
                        let obj = row_to_object(&column_names, cells);
                        out.push(obj);
                        assert(objects_view(out@) =~= row_objects(orig.take(i + 1), cols));
                    },
                    None => {
                        assert(objects_view(out@) =~= row_objects(orig.take(i + 1), cols));
                    },
                }
                proof {
                    assert forall|k: int| 0 <= k < rows@.len() implies rows_view(rows@)[k]
                        == orig.subrange(i + 1, orig.len() as int)[k] by {
                        assert(rows@[k] == before[k + 1]);
                        assert(rows_view(before)[k + 1] == orig.subrange(
                            i as int,
                            orig.len() as int,
                        )[k + 1]);
                    }
                }
                i = i + 1;
                assert(rows_view(rows@) =~= orig.subrange(i as int, orig.len() as int));
            }
            assert(orig.take(n as int) =~= orig);
            out
        },
    }
}

/// A query result whose rows are objects, in the shape of the worker's own
/// replies: `{ result: { resultRows: [ {column: cell, ...}, ... ] } }`.
pub struct RowsReply<V> {
    /// `result.resultRows`: one object per row.
    pub result_rows: Vec<Vec<Property<V>>>,
}

/// The reply that carries `rows` rebuilt as objects keyed by
/// `column_names` (see [`convert_arrays_to_objects`]).
pub fn rows_reply<V>(rows: Option<Vec<Option<Vec<V>>>>, column_names: Vec<String>) -> (r:
    RowsReply<V>)
    ensures
        objects_view(r.result_rows@) == converted_rows(opt_rows_view(rows), names_view(column_names@)),
{
    RowsReply { result_rows: convert_arrays_to_objects(rows, column_names) }
}

/// The strings among `names`, in order.
pub open spec fn strings_of(names: Seq<Option<String>>) -> Seq<Seq<char>>
    decreases names.len(),
{
    if names.len() == 0 {
        seq![]
    } else {
        let prev = strings_of(names.drop_last());
        match names.last() {
            Some(s) => prev.push(s@),
            None => prev,
        }
    }
}

/// The text of an entry of `columnNames` that is a string.
pub open spec fn string_entry(o: Option<String>) -> Option<Seq<char>> {
    match o {
        Some(s) => Some(s@),
        None => None,
    }
}

/// Every string entry of a `columnNames` array becomes one column name, in
/// order, repeated names included: the names are the string entries with
/// the others left out, and there are as many names as string entries.
pub proof fn lemma_strings_of_keeps_every_string(names: Seq<Option<String>>)
    ensures
        strings_of(names) == names.filter_map(|o: Option<String>| string_entry(o)),
        strings_of(names).len() == names.filter(|o: Option<String>| o is Some).len(),
    decreases names.len(),
{
    reveal(Seq::filter);
    if names.len() > 0 {
        lemma_strings_of_keeps_every_string(names.drop_last());
        let rest = names.drop_last().filter_map(|o: Option<String>| string_entry(o));
        match names.last() {
            Some(t) => {
                assert(rest + seq![t@] =~= rest.push(t@));
            },
            None => {},
        }
    }
}

/// The column names of a reply: `None` when the reply held no
/// `result.columnNames` array; otherwise its entries that are strings, in
/// order (`names` holds `None` for an entry that is not a string).
pub fn extract_column_names(names: Option<Vec<Option<String>>>) -> (r: Option<Vec<String>>)
    ensures
        r is Some == names is Some,
        r matches Some(cols) ==> names_view(cols@) == strings_of(names->0@),
        r matches Some(cols) ==> names_view(cols@) == names->0@.filter_map(
            |o: Option<String>| string_entry(o),
        ),
        r matches Some(cols) ==> cols@.len() == names->0@.filter(|o: Option<String>| o is Some).len(),
{
    proof {
        if names is Some {
            lemma_strings_of_keeps_every_string(names->0@);
        }
    }
    match names {
        None => None,
        Some(names) => {
            let mut cols: Vec<String> = Vec::new();
            let mut i: usize = 0;
            while i < names.len()
                invariant
                    i <= names@.len(),
                    names_view(cols@) == strings_of(names@.take(i as int)),
                decreases names@.len() - i,
            {
                assert(names@.take(i + 1).drop_last() =~= names@.take(i as int));
                match &names[i] {
                    Some(s) => {
                        cols.push(s.clone());
                        assert(names_view(cols@) =~= strings_of(names@.take(i + 1)));
                    },
                    None => {},
                }
                i = i + 1;
            }
            assert(names@.take(i as int) =~= names@);
            Some(cols)
        },
    }
}

// ==================== REQUESTS ====================

/// `exec` arguments for an array-mode or object-mode query, taking the next
/// statement id (the caller has checked that a database is open).
pub fn create_query_args<V>(db: &mut Database<V>, sql: &str, params: Vec<V>, mode: RowMode) -> (a:
    ExecArgs<V>)
    ensures
        final(db).uid() == old(db).uid(),
        final(db).counter() == next_counter(
            old(db).counter(),
        ),
        statement_sent(
            a,
            old(db).counter(),
            sql@,
            Some(mode),
            false,
            params@,
        ),
{
    let id = next_message_id(db);
    exec_args(id, sql, Some(mode), None, false, params)
}

/// `exec` arguments for an array-mode query that also asks for the column
/// names (`columnNames: true`), taking the next statement id.
pub fn create_query_args_with_columns<V>(db: &mut Database<V>, sql: &str, params: Vec<V>) -> (a:
    ExecArgs<V>)
    ensures
        final(db).uid() == old(db).uid(),
        final(db).counter() == next_counter(
            old(db).counter(),
        ),
        statement_sent(
            a,
            old(db).counter(),
            sql@,
            Some(RowMode::Array),
            true,
            params@,
        ),
{
    let id = next_message_id(db);
    exec_args(id, sql, Some(RowMode::Array), None, true, params)
}

/// `query_array`: a query whose rows come back as arrays of cells.
pub fn query_array<V>(db: &mut Database<V>, sql: &str, params: Vec<V>) -> (r: Result<
    Command<V>,
    DbError<V>,
>)
    ensures
        statement_issued(*old(db), *final(db), r, sql@, Some(RowMode::Array), false, params@),
{
    statement_request(db, sql, params, Some(RowMode::Array), false)
}

/// The key under which `query_optimized` caches the column names of a
/// query: the SQL, a dash, and the debug rendering of its parameters.
pub fn cache_key(sql: &str, params_debug: &str) -> (k: String)
    ensures
        k@ == sql@ + "-"@ + params_debug@,
{
    let mut k = sql.to_owned();
    k.append("-");
    k.append(params_debug);
    k
}

/// The request `query_optimized` sends.
pub enum OptimizedQuery<V> {
    /// The column names are cached: an array-mode query, whose rows are
    /// then keyed by these names.
    Cached { request: Command<V>, columns: Vec<String> },
    /// The column names are not known yet: an array-mode query that also
    /// asks for them.
    Discover { request: Command<V> },
}

/// `query_optimized`: with no database open, fails with `NotOpened` and
/// changes nothing. When `key` is cached, the query is sent in array mode
/// and the cached column names come along; otherwise it is sent in array
/// mode asking for column names. Either way the next statement id is taken.
pub fn query_optimized<V>(
    db: &mut Database<V>,
    cache: &Cache<Vec<String>>,
    key: &str,
    sql: &str,
    params: Vec<V>,
) -> (r: Result<OptimizedQuery<V>, DbError<V>>)
    requires
        cache.wf(),
    ensures
        final(db).uid() == old(db).uid(),
        old(db).uid() is None ==> {
            &&& r matches Err(DbError::NotOpened)
            &&& final(db).counter() == old(db).counter()
        },
        old(db).uid() is Some ==> final(db).counter() == next_counter(old(db).counter()),
        old(db).uid() is Some && cache@.contains_key(key@) ==> {
            &&& r matches Ok(OptimizedQuery::Cached { request: Command::Exec(a), columns })
            &&& names_view(columns@) == names_view(cache@[key@]@)
            &&& statement_sent(a, old(db).counter(), sql@, Some(RowMode::Array), false, params@)
        },
        old(db).uid() is Some && !cache@.contains_key(key@) ==> {
            &&& r matches Ok(OptimizedQuery::Discover { request: Command::Exec(a) })
            &&& statement_sent(a, old(db).counter(), sql@, Some(RowMode::Array), true, params@)
        },
{
    if !is_db_open(db) {
        return Err(DbError::NotOpened);
    }
    match cache.get(key) {
        Some(cols) => {
            let columns = clone_names(cols);
            let request = query_array(db, sql, params);
            match request {
                Ok(request) => Ok(OptimizedQuery::Cached { request, columns }),
                Err(e) => Err(e),
            }
        },
        None => {
            let a = create_query_args_with_columns(db, sql, params);
            Ok(OptimizedQuery::Discover { request: Command::Exec(a) })
        },
    }
}

/// The reply of a `Discover` query: when the reply named its columns, they
/// are cached under `key` and the rows come back as objects in a
/// [`RowsReply`]; otherwise the cache is unchanged and the raw reply stands
/// (`None`). The reply of a `Cached` query is [`rows_reply`] of its rows and
/// the cached columns.
pub fn complete_optimized<V>(
    cache: &mut Cache<Vec<String>>,
    key: String,
    columns: Option<Vec<String>>,
    rows: Option<Vec<Option<Vec<V>>>>,
) -> (r: Option<RowsReply<V>>)
    requires
        old(cache).wf(),
    ensures
        final(cache).wf(),
        r is Some == columns is Some,
        columns is None ==> final(cache)@ == old(cache)@,
        columns matches Some(cols) ==> {
            &&& final(cache)@.dom() == old(cache)@.dom().insert(key@)
            &&& forall|k: Seq<char>|
                k != key@ && old(cache)@.contains_key(k) ==> #[trigger] final(cache)@[k]
                    == old(cache)@[k]
            &&& names_view(final(cache)@[key@]@) == names_view(cols@)
            &&& objects_view(r->0.result_rows@) == converted_rows(
                opt_rows_view(rows),
                names_view(cols@),
            )
        },
{
    match columns {
        Some(cols) => {
            let stored = clone_names(&cols);
            cache.insert(key, stored);
            Some(rows_reply(rows, cols))
        },
        None => None,
    }
}

} // verus!
