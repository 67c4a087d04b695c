use vstd::prelude::*;

use crate::errors::{DbError, DbErrorV};
use crate::row::{NamedValue, NamedValueV, duplicate_entries, entries_view};
use crate::schema::{ColumnDescriptor, ColumnV, cols_view, distinct_col_names};
use crate::values::Value;

verus! {

/// One raw record as the store keeps and returns it: an ordered list of
/// named values, with no validation attached.  The decode engine is checked
/// against arbitrary records, so a record built by hand may disagree with
/// any schema.
#[derive(Debug, PartialEq, Eq)]
pub struct Record {
    entries: Vec<NamedValue>,
}

impl View for Record {
    type V = Seq<NamedValueV>;

    closed spec fn view(&self) -> Seq<NamedValueV> {
        entries_view(self.entries@)
    }
}

impl Record {
    /// An empty record.
    pub fn new() -> (r: Record)
        ensures
            r@ == Seq::<NamedValueV>::empty(),
    {
        let r = Record { entries: Vec::new() };
        proof {
            assert(r@ =~= Seq::<NamedValueV>::empty());
        }
        r
    }

    /// Appends a named value; nothing is checked here.
    pub fn push(&mut self, name: String, value: Value)
        ensures
            final(self)@ == old(self)@.push(NamedValueV { name: name@, value: value@ }),
    {
        let ghost prev = self@;
        self.entries.push(NamedValue { name, value });
        proof {
            assert(self@ =~= prev.push(self.entries@[self.entries@.len() - 1]@));
        }
    }

    /// How many fields the record has.
    pub fn len(&self) -> (n: usize)
        ensures
            n == self@.len(),
    {
        self.entries.len()
    }

    /// The fields of the record, in order.
    pub(crate) fn entries(&self) -> (r: &Vec<NamedValue>)
        ensures
            entries_view(r@) == self@,
    {
        &self.entries
    }

    /// An equal copy of this record.
    pub fn duplicate(&self) -> (r: Record)
        ensures
            r@ == self@,
    {
        Record { entries: duplicate_entries(&self.entries) }
    }
}

/// The models of a sequence of records.
pub open spec fn records_view(rs: Seq<Record>) -> Seq<Seq<NamedValueV>> {
    rs.map_values(|r: Record| r@)
}

/// Mathematical model of one physical table.
pub struct TableV {
    pub name: Seq<char>,
    pub columns: Seq<ColumnV>,
    pub rows: Seq<Seq<NamedValueV>>,
}

/// Mathematical model of the store: its tables and how many calls it has
/// served.
pub struct StoreV {
    pub tables: Seq<TableV>,
    pub calls: u64,
}

/// Table names are distinct and every table's column names are distinct.
pub open spec fn store_tables_wf(ts: Seq<TableV>) -> bool {
    &&& forall|i: int, j: int| 0 <= i < j < ts.len() ==> ts[i].name != ts[j].name
    &&& forall|i: int| 0 <= i < ts.len() ==> distinct_col_names((#[trigger] ts[i]).columns)
}

/// Well-formedness of the whole store.
pub open spec fn store_wf(s: StoreV) -> bool {
    store_tables_wf(s.tables)
}

/// The index of the first table named `n`, or `-1`.
pub open spec fn table_index(ts: Seq<TableV>, n: Seq<char>) -> int
    decreases ts.len(),
{
    if ts.len() == 0 {
        -1
    } else if ts[0].name == n {
        0
    } else {
        let r = table_index(ts.drop_first(), n);
        if r < 0 {
            -1
        } else {
            r + 1
        }
    }
}

/// Whether the store holds a table named `n`.
pub open spec fn has_table(ts: Seq<TableV>, n: Seq<char>) -> bool {
    table_index(ts, n) >= 0
}

/// `table_index` finds a table exactly when one of that name exists, and
/// then points at the first one.
pub proof fn lemma_table_index_props(ts: Seq<TableV>, n: Seq<char>)
    ensures
        has_table(ts, n) <==> exists|i: int| 0 <= i < ts.len() && ts[i].name == n,
        has_table(ts, n) ==> {
            let k = table_index(ts, n);
            &&& 0 <= k < ts.len()
            &&& ts[k].name == n
            &&& forall|a: int| 0 <= a < k ==> ts[a].name != n
        },
    decreases ts.len(),
{
    if ts.len() == 0 {
    } else if ts[0].name == n {
    } else {
        let d = ts.drop_first();
        lemma_table_index_props(d, n);
        assert(forall|a: int| 0 <= a < d.len() ==> #[trigger] d[a] == ts[a + 1]);
        if exists|i: int| 0 <= i < ts.len() && ts[i].name == n {
            let i = choose|i: int| 0 <= i < ts.len() && ts[i].name == n;
            assert(d[i - 1].name == n);
            assert(has_table(d, n));
        }
        if has_table(d, n) {
            let k = table_index(d, n);
            assert(d[k].name == n);
            assert(ts[k + 1].name == n);
            assert(forall|a: int| 1 <= a < k + 1 ==> #[trigger] ts[a].name != n) by {
                assert(forall|a: int| 1 <= a < k + 1 ==> ts[a] == d[a - 1]);
            }
        }
    }
}

/// A name whose first occurrence among the tables is at `i` is found at `i`.
pub proof fn lemma_table_index_first(ts: Seq<TableV>, n: Seq<char>, i: int)
    requires
        0 <= i < ts.len(),
        ts[i].name == n,
        forall|a: int| 0 <= a < i ==> ts[a].name != n,
    ensures
        table_index(ts, n) == i,
    decreases ts.len(),
{
    if i == 0 {
    } else {
        lemma_table_index_first(ts.drop_first(), n, i - 1);
    }
}

/// Whether a physical column with the name and logical type of `c` exists.
/// The nullability flag is not part of compatibility.
pub open spec fn col_present(phys: Seq<ColumnV>, c: ColumnV) -> bool {
    exists|j: int|
        0 <= j < phys.len() && phys[j].name == c.name && phys[j].logical_type == c.logical_type
}

/// A physical table is compatible with the wanted columns when it holds
/// every wanted column with the wanted type; extra physical columns are
/// tolerated and ignored.
pub open spec fn cols_compat(want: Seq<ColumnV>, phys: Seq<ColumnV>) -> bool {
    forall|i: int| 0 <= i < want.len() ==> col_present(phys, #[trigger] want[i])
}

/// Whether an "ensure table" request succeeds on `ts`: it does unless the
/// table exists with incompatible columns.
pub open spec fn ensure_ok(ts: Seq<TableV>, n: Seq<char>, cols: Seq<ColumnV>) -> bool {
    !has_table(ts, n) || cols_compat(cols, ts[table_index(ts, n)].columns)
}

/// The tables after an "ensure table" request: unchanged if a table named
/// `n` already exists (whatever the outcome), else extended by an empty
/// table with the wanted columns.
pub open spec fn ensure_post(ts: Seq<TableV>, n: Seq<char>, cols: Seq<ColumnV>) -> Seq<TableV> {
    if has_table(ts, n) {
        ts
    } else {
        ts.push(TableV { name: n, columns: cols, rows: Seq::empty() })
    }
}

/// The tables after appending record `rec` to table `n`; meaningful only
/// when the table exists.
pub open spec fn append_post(ts: Seq<TableV>, n: Seq<char>, rec: Seq<NamedValueV>) -> Seq<
    TableV,
> {
    let k = table_index(ts, n);
    ts.update(k, TableV { name: ts[k].name, columns: ts[k].columns, rows: ts[k].rows.push(rec) })
}

/// The store's call counter after one more served call.
pub open spec fn bump(c: u64) -> u64 {
    if c == u64::MAX {
        c
    } else {
        (c + 1) as u64
    }
}

/// One physical table: name, columns, and the raw records inserted so far.
#[derive(Debug)]
struct StoredTable {
    name: String,
    columns: Vec<ColumnDescriptor>,
    rows: Vec<Record>,
}

impl View for StoredTable {
    type V = TableV;

    closed spec fn view(&self) -> TableV {
        TableV {
            name: self.name@,
            columns: cols_view(self.columns@),
            rows: records_view(self.rows@),
        }
    }
}

/// The embedded backing store: a set of physical tables addressed by name,
/// and a counter of the calls it has served.  Every operation that models a
/// store call (`ensure_table`, `append_record`, `fetch_records`) bumps the
/// counter, so a caller can observe that a failed validation reached the
/// store not at all.
#[derive(Debug)]
pub struct Store {
    tables: Vec<StoredTable>,
    calls: u64,
}

impl View for Store {
    type V = StoreV;

    closed spec fn view(&self) -> StoreV {
        StoreV { tables: self.tables@.map_values(|t: StoredTable| t@), calls: self.calls }
    }
}

impl Store {
    /// An empty store that has served no calls.
    pub fn new() -> (s: Store)
        ensures
            s@.tables == Seq::<TableV>::empty(),
            s@.calls == 0,
            store_wf(s@),
    {
        let s = Store { tables: Vec::new(), calls: 0 };
        proof {
            assert(s@.tables =~= Seq::<TableV>::empty());
        }
        s
    }

    /// How many store calls have been served.
    pub fn call_count(&self) -> (n: u64)
        ensures
            n == self@.calls,
    {
        self.calls
    }

    /// How many physical tables exist.
    pub fn table_count(&self) -> (n: usize)
        ensures
            n == self@.tables.len(),
    {
        self.tables.len()
    }

    /// Whether a table named `name` exists.  An observer, not a store call:
    /// the counter does not move.
    pub fn has_table_named(&self, name: &String) -> (r: bool)
        ensures
            r == has_table(self@.tables, name@),
    {
        self.find_table(name).is_some()
    }

    /// The index of the table named `name`, if one exists.
    fn find_table(&self, name: &String) -> (r: Option<usize>)
        ensures
            match r {
                Some(i) => i == table_index(self@.tables, name@) && i < self@.tables.len()
                    && self@.tables[i as int].name == name@,
                None => !has_table(self@.tables, name@),
            },
    {
        let ghost ts = self@.tables;
        let mut i: usize = 0;
        while i < self.tables.len()
            invariant
                i <= self.tables.len(),
                ts == self@.tables,
                ts.len() == self.tables.len(),
                forall|a: int| 0 <= a < i ==> ts[a].name != name@,
            decreases self.tables.len() - i,
        {
            if self.tables[i].name == *name {
                proof {
                    lemma_table_index_first(ts, name@, i as int);
                }
                return Some(i);
            }
            i = i + 1;
        }
        proof {
            lemma_table_index_props(ts, name@);
        }
        None
    }

    /// Serves an "ensure table" request, the store side of registration:
    /// creates the table with the wanted columns if it is absent, accepts a
    /// compatible existing table unchanged, and reports a mismatch (naming
    /// the table and an offending column) otherwise.  Always one store call.
    pub fn ensure_table(&mut self, name: &String, columns: &Vec<ColumnDescriptor>) -> (r: Result<
        (),
        DbError,
    >)
        requires
            store_wf(old(self)@),
            distinct_col_names(cols_view(columns@)),
        ensures
            store_wf(final(self)@),
            final(self)@.calls == bump(old(self)@.calls),
            final(self)@.tables == ensure_post(old(self)@.tables, name@, cols_view(columns@)),
            r is Ok <==> ensure_ok(old(self)@.tables, name@, cols_view(columns@)),
            match r {
                Ok(()) => true,
                Err(e) => match e@ {
                    DbErrorV::SchemaMismatch { table, column } => {
                        let ts = old(self)@.tables;
                        &&& table == name@
                        &&& has_table(ts, name@)
                        &&& exists|i: int|
                            0 <= i < columns@.len() && (#[trigger] columns@[i])@.name == column
                                && !col_present(
                                ts[table_index(ts, name@)].columns,
                                columns@[i]@,
                            )
                    },
                    _ => false,
                },
            },
    {
        let ghost ts = self@.tables;
        let ghost want = cols_view(columns@);
        self.calls = if self.calls == u64::MAX {
            u64::MAX
        } else {
            self.calls + 1
        };
        assert(self@.tables == ts);
        match self.find_table(name) {
            None => {
                let table = StoredTable {
                    name: name.clone(),
                    columns: duplicate_columns(columns),
                    rows: Vec::new(),
                };
                proof {
                    assert(table@.rows =~= Seq::<Seq<NamedValueV>>::empty());
                }
                self.tables.push(table);
                proof {
                    assert(self@.tables =~= ensure_post(ts, name@, want));
                    lemma_table_index_props(ts, name@);
                    assert(store_tables_wf(self@.tables)) by {
                        assert(forall|a: int|
                            0 <= a < ts.len() ==> (#[trigger] self@.tables[a]) == ts[a]);
                        assert(self@.tables[ts.len() as int].name == name@);
                        assert(self@.tables[ts.len() as int].columns == want);
                    }
                }
                Ok(())
            },
            Some(k) => {
                let ghost ki = k as int;
                let phys = &self.tables[k].columns;
                let ghost pv = ts[ki].columns;
                proof {
                    assert(self@.tables[ki] == self.tables@[ki]@);
                    assert(cols_view(phys@) == pv);
                }
                let mut i: usize = 0;
                while i < columns.len()
                    invariant
                        i <= columns.len(),
                        want == cols_view(columns@),
                        pv == cols_view(phys@),
                        ts == old(self)@.tables,
                        self@.tables == ts,
                        self@.calls == bump(old(self)@.calls),
                        store_wf(old(self)@),
                        0 <= ki < ts.len(),
                        ki == table_index(ts, name@),
                        has_table(ts, name@),
                        pv == ts[ki].columns,
                        forall|a: int| 0 <= a < i ==> col_present(pv, #[trigger] want[a]),
                    decreases columns.len() - i,
                {
                    if !column_present_in(phys, &columns[i]) {
                        let bad = columns[i].name.clone();
                        proof {
                            let gi = i as int;
                            assert(!col_present(pv, want[gi]));
                            assert(!cols_compat(want, pv));
                            assert(exists|a: int|
                                0 <= a < columns@.len() && (#[trigger] columns@[a])@.name == bad@
                                    && !col_present(pv, columns@[a]@)) by {
                                assert((#[trigger] columns@[gi])@.name == bad@ && !col_present(
                                    pv,
                                    columns@[gi]@,
                                ));
                            }
                        }
                        return Err(
                            DbError::SchemaMismatch { table: name.clone(), column: bad },
                        );
                    }
                    i = i + 1;
                }
                proof {
                    assert(cols_compat(want, pv));
                }
                Ok(())
            },
        }
    }

    /// Serves an "insert row" request: appends the raw record to the named
    /// table, or reports that the table is missing.  Always one store call;
    /// the record is either fully appended or not at all.
    pub fn append_record(&mut self, name: &String, rec: Record) -> (r: Result<(), DbError>)
        requires
            store_wf(old(self)@),
        ensures
            store_wf(final(self)@),
            final(self)@.calls == bump(old(self)@.calls),
            match r {
                Ok(()) => has_table(old(self)@.tables, name@) && final(self)@.tables
                    == append_post(old(self)@.tables, name@, rec@),
                Err(e) => !has_table(old(self)@.tables, name@) && final(self)@.tables == old(
                    self,
                )@.tables && e@ == (DbErrorV::StoreMissingTable { table: name@ }),
            },
    {
        let ghost ts = self@.tables;
        self.calls = if self.calls == u64::MAX {
            u64::MAX
        } else {
            self.calls + 1
        };
        assert(self@.tables == ts);
        match self.find_table(name) {
            None => Err(DbError::StoreMissingTable { table: name.clone() }),
            Some(k) => {
                let ghost ki = k as int;
                let ghost recv = rec@;
                let table = &mut self.tables[k];
                proof {
                    assert(ts[ki] == old(self).tables@[ki]@);
                }
                table.rows.push(rec);
                proof {
                    assert(records_view(self.tables@[ki].rows@) =~= ts[ki].rows.push(recv));
                    assert(self@.tables =~= append_post(ts, name@, recv));
                    assert(store_tables_wf(self@.tables)) by {
                        assert(forall|a: int|
                            0 <= a < ts.len() && a != ki ==> (#[trigger] self@.tables[a])
                                == ts[a]);
                        assert(self@.tables[ki].name == ts[ki].name);
                        assert(self@.tables[ki].columns == ts[ki].columns);
                    }
                }
                Ok(())
            },
        }
    }

    /// Serves a "select" request: returns copies of all raw records of the
    /// named table in their stored order, or reports that the table is
    /// missing.  Always one store call; the tables themselves do not change.
    pub fn fetch_records(&mut self, name: &String) -> (r: Result<Vec<Record>, DbError>)
        requires
            store_wf(old(self)@),
        ensures
            store_wf(final(self)@),
            final(self)@.calls == bump(old(self)@.calls),
            final(self)@.tables == old(self)@.tables,
            match r {
                Ok(rs) => has_table(old(self)@.tables, name@) && records_view(rs@) == old(
                    self,
                )@.tables[table_index(old(self)@.tables, name@)].rows,
                Err(e) => !has_table(old(self)@.tables, name@) && e@ == (
                DbErrorV::StoreMissingTable { table: name@ }),
            },
    {
        let ghost ts = self@.tables;
        self.calls = if self.calls == u64::MAX {
            u64::MAX
        } else {
            self.calls + 1
        };
        assert(self@.tables == ts);
        match self.find_table(name) {
            None => Err(DbError::StoreMissingTable { table: name.clone() }),
            Some(k) => {
                let ghost ki = k as int;
                let rows = &self.tables[k].rows;
                proof {
                    assert(ts[ki] == self.tables@[ki]@);
                    assert(records_view(rows@) == ts[ki].rows);
                }
                let mut out: Vec<Record> = Vec::new();
                let mut i: usize = 0;
                while i < rows.len()
                    invariant
                        i <= rows.len(),
                        out@.len() == i,
                        forall|a: int| 0 <= a < i ==> out@[a]@ == rows@[a]@,
                    decreases rows.len() - i,
                {
                    out.push(rows[i].duplicate());
                    i = i + 1;
                }
                proof {
                    assert(records_view(out@) =~= records_view(rows@));
                }
                Ok(out)
            },
        }
    }
}

/// An element-wise copy of a sequence of column descriptors.
fn duplicate_columns(cs: &Vec<ColumnDescriptor>) -> (r: Vec<ColumnDescriptor>)
    ensures
        cols_view(r@) == cols_view(cs@),
{
    let mut out: Vec<ColumnDescriptor> = Vec::new();
    let mut i: usize = 0;
    while i < cs.len()
        invariant
            i <= cs.len(),
            out@.len() == i,
            forall|k: int| 0 <= k < i ==> out@[k]@ == cs@[k]@,
        decreases cs.len() - i,
    {
        out.push(cs[i].duplicate());
        i = i + 1;
    }
    proof {
        assert(cols_view(out@) =~= cols_view(cs@));
    }
    out
}

/// Whether `phys` holds a column with the name and logical type of `c`.
fn column_present_in(phys: &Vec<ColumnDescriptor>, c: &ColumnDescriptor) -> (r: bool)
    ensures
        r == col_present(cols_view(phys@), c@),
{
    let ghost pv = cols_view(phys@);
    let mut j: usize = 0;
    while j < phys.len()
        invariant
            j <= phys.len(),
            pv == cols_view(phys@),
            forall|a: int|
                0 <= a < j ==> !(pv[a].name == c@.name && pv[a].logical_type == c@.logical_type),
        decreases phys.len() - j,
    {
        if phys[j].name == c.name && phys[j].logical_type == c.logical_type {
            proof {
                let gj = j as int;
                assert(pv[gj].name == c@.name && pv[gj].logical_type == c@.logical_type);
            }
            return true;
        }
        j = j + 1;
    }
    proof {
        if col_present(pv, c@) {
            let a = choose|a: int|
                0 <= a < pv.len() && pv[a].name == c@.name && pv[a].logical_type
                    == c@.logical_type;
            assert(false);
        }
    }
    false
}

} // verus!
