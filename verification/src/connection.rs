use vstd::prelude::*;

use crate::errors::{DbError, DbErrorV};
use crate::query::{
    DecodedRow, InsertRequest, QueryBuilder, all_records_decode, decode_records, decoded_all,
    decoded_rows_view, record_of,
};
use crate::row::{Row, row_conforms, validate_row};
use crate::schema::{SchemaDescriptor, SchemaV, schema_wf};
use crate::store::{
    Store, StoreV, append_post, bump, ensure_ok, ensure_post, has_table, table_index,
};

verus! {

/// The lifecycle of a connection: `Closed` is terminal, and every data
/// operation on a closed connection fails with a closed-connection error.
#[derive(Clone, Copy, Debug, PartialEq, Eq, Structural)]
pub enum ConnState {
    Connected,
    Closed,
}

/// Mathematical model of a connection.
pub struct ConnectionV {
    pub state: ConnState,
    pub target: Seq<char>,
    pub store: StoreV,
    pub registered: Seq<SchemaV>,
}

/// Whether a schema for table `n` is in the registration cache.
pub open spec fn registered_has(rs: Seq<SchemaV>, n: Seq<char>) -> bool {
    exists|i: int| 0 <= i < rs.len() && (#[trigger] rs[i]).table_name == n
}

/// The cached schemas are well-formed and cached under distinct names.
pub open spec fn registered_wf(rs: Seq<SchemaV>) -> bool {
    &&& forall|i: int| 0 <= i < rs.len() ==> schema_wf(#[trigger] rs[i])
    &&& forall|i: int, j: int| 0 <= i < j < rs.len() ==> rs[i].table_name != rs[j].table_name
}

/// A live session with the backing store.  The connection exclusively owns
/// the store handle: driving it from one place at a time is guaranteed by
/// `&mut self` on every operation, so no internal locking is needed.  It
/// also keeps a process-local cache of the schemas registered through it.
#[derive(Debug)]
pub struct Connection {
    state: ConnState,
    target: String,
    store: Store,
    registered: Vec<SchemaDescriptor>,
}

impl View for Connection {
    type V = ConnectionV;

    closed spec fn view(&self) -> ConnectionV {
        ConnectionV {
            state: self.state,
            target: self.target@,
            store: self.store@,
            registered: self.registered@.map_values(|s: SchemaDescriptor| s@),
        }
    }
}

impl Connection {
    /// The owned store and the registration cache are well-formed.
    pub open spec fn wf(&self) -> bool {
        &&& crate::store::store_wf(self@.store)
        &&& registered_wf(self@.registered)
    }

    /// Establishes a session with `store` under the connection target
    /// `target`.  An empty target is malformed and fails with a connection
    /// error that hands the untouched store back.
    pub fn connect(target: String, store: Store) -> (r: Result<Connection, (DbError, Store)>)
        requires
            crate::store::store_wf(store@),
        ensures
            match r {
                Ok(c) => target@.len() > 0 && c@ == (ConnectionV {
                    state: ConnState::Connected,
                    target: target@,
                    store: store@,
                    registered: Seq::empty(),
                }) && c.wf(),
                Err((e, s)) => target@.len() == 0 && e@ == (DbErrorV::ConnectionFailed {
                    target: target@,
                }) && s@ == store@,
            },
    {
        if target.as_str().is_empty() {
            return Err((DbError::ConnectionFailed { target }, store));
        }
        let c = Connection {
            state: ConnState::Connected,
            target,
            store,
            registered: Vec::new(),
        };
        proof {
            assert(c@.registered =~= Seq::<SchemaV>::empty());
        }
        Ok(c)
    }

    /// Whether the connection is still open.
    pub fn is_open(&self) -> (r: bool)
        ensures
            r == (self@.state == ConnState::Connected),
    {
        self.state == ConnState::Connected
    }

    /// How many store calls the owned store has served; an observer for
    /// callers that track when the store is reached.
    pub fn store_calls(&self) -> (n: u64)
        ensures
            n == self@.store.calls,
    {
        self.store.call_count()
    }

    /// How many physical tables the owned store holds.
    pub fn table_count(&self) -> (n: usize)
        ensures
            n == self@.store.tables.len(),
    {
        self.store.table_count()
    }

    /// Whether a schema for table `name` has been registered through this
    /// connection.
    pub fn is_registered(&self, name: &String) -> (r: bool)
        ensures
            r == registered_has(self@.registered, name@),
    {
        let ghost rs = self@.registered;
        let mut i: usize = 0;
        while i < self.registered.len()
            invariant
                i <= self.registered.len(),
                rs == self@.registered,
                rs.len() == self.registered.len(),
                forall|a: int| 0 <= a < i ==> (#[trigger] rs[a]).table_name != name@,
            decreases self.registered.len() - i,
        {
            if *self.registered[i].table_name() == *name {
                proof {
                    assert((#[trigger] rs[i as int]).table_name == name@);
                }
                return true;
            }
            i = i + 1;
        }
        false
    }

    /// Closes the connection and releases the store, handing it back to
    /// the caller.  Closing is terminal: every later data operation fails
    /// with a closed-connection error.  A second close returns the empty
    /// store that replaced the released one.
    pub fn close(&mut self) -> (s: Store)
        ensures
            final(self)@.state == ConnState::Closed,
            final(self)@.target == old(self)@.target,
            final(self)@.registered == old(self)@.registered,
            final(self)@.store.tables == Seq::<crate::store::TableV>::empty(),
            final(self)@.store.calls == 0,
            s@ == old(self)@.store,
            old(self).wf() ==> final(self).wf(),
    {
        self.state = ConnState::Closed;
        let mut s = Store::new();
        core::mem::swap(&mut self.store, &mut s);
        s
    }

    /// Registers `schema`: issues one "ensure table" request to the store,
    /// which creates the table when absent and otherwise checks that the
    /// existing one is a compatible superset.  Idempotent: a second call
    /// with the same schema succeeds and changes no table.  On success the
    /// schema enters the registration cache.
    pub fn register_table(&mut self, schema: &SchemaDescriptor) -> (r: Result<(), DbError>)
        requires
            old(self).wf(),
            schema.wf(),
        ensures
            final(self).wf(),
            final(self)@.state == old(self)@.state,
            final(self)@.target == old(self)@.target,
            old(self)@.state == ConnState::Closed ==> (r matches Err(e) && e@
                == DbErrorV::ConnectionClosed && final(self)@ == old(self)@),
            old(self)@.state == ConnState::Connected ==> {
                let ts = old(self)@.store.tables;
                let name = schema@.table_name;
                let cols = schema@.columns;
                &&& final(self)@.store.calls == bump(old(self)@.store.calls)
                &&& final(self)@.store.tables == ensure_post(ts, name, cols)
                &&& (r is Ok <==> ensure_ok(ts, name, cols))
                &&& match r {
                    Ok(()) => final(self)@.registered == if registered_has(
                        old(self)@.registered,
                        name,
                    ) {
                        old(self)@.registered
                    } else {
                        old(self)@.registered.push(schema@)
                    },
                    Err(e) => final(self)@.registered == old(self)@.registered && match e@ {
                        DbErrorV::SchemaMismatch { table, column } => {
                            &&& table == name
                            &&& has_table(ts, name)
                            &&& exists|i: int|
                                0 <= i < cols.len() && (#[trigger] cols[i]).name == column
                                    && !crate::store::col_present(
                                    ts[table_index(ts, name)].columns,
                                    cols[i],
                                )
                        },
                        _ => false,
                    },
                }
            },
    {
        if !self.is_open() {
            return Err(DbError::ConnectionClosed);
        }
        let name = schema.table_name();
        let cols_ref = schema.columns();
        let r = self.store.ensure_table(name, cols_ref);
        match r {
            Ok(()) => {
                let ghost prev = self@.registered;
                if !self.is_registered(schema.table_name()) {
                    self.registered.push(schema.duplicate());
                    proof {
                        assert(self@.registered =~= prev.push(schema@));
                        assert(registered_wf(self@.registered)) by {
                            assert(forall|a: int|
                                0 <= a < prev.len() ==> (#[trigger] self@.registered[a])
                                    == prev[a]);
                            assert(self@.registered[prev.len() as int] == schema@);
                        }
                    }
                }
                Ok(())
            },
            Err(e) => {
                proof {
                    let excols = schema@.columns;
                    let ts = old(self)@.store.tables;
                    let phys = ts[table_index(ts, schema@.table_name)].columns;
                    match e@ {
                        DbErrorV::SchemaMismatch { table, column } => {
                            let i = choose|i: int|
                                0 <= i < cols_ref@.len() && (#[trigger] cols_ref@[i])@.name
                                    == column && !crate::store::col_present(phys, cols_ref@[i]@);
                            assert(exists|a: int|
                                0 <= a < excols.len() && (#[trigger] excols[a]).name == column
                                    && !crate::store::col_present(phys, excols[a])) by {
                                assert((#[trigger] excols[i]).name == column
                                    && !crate::store::col_present(phys, excols[i]));
                            }
                        },
                        _ => {},
                    }
                }
                Err(e)
            },
        }
    }

    /// Stages `row` for insertion under `schema`; nothing is validated or
    /// written yet.
    pub fn insert(&self, schema: &SchemaDescriptor, row: Row) -> (r: InsertRequest)
        requires
            schema.wf(),
        ensures
            r@.schema == schema@,
            r@.row == row@,
            r.wf(),
    {
        InsertRequest::new(schema, row)
    }

    /// Executes a staged insert.  The row is validated against the schema
    /// first: a missing, mistyped or unknown column fails with the matching
    /// validation error and the store is not called at all.  Only a valid
    /// row is handed to the store, which appends it whole to its table or
    /// reports the table missing.
    pub fn execute_insert(&mut self, req: &InsertRequest) -> (r: Result<(), DbError>)
        requires
            old(self).wf(),
            req.wf(),
        ensures
            final(self).wf(),
            final(self)@.state == old(self)@.state,
            final(self)@.target == old(self)@.target,
            final(self)@.registered == old(self)@.registered,
            old(self)@.state == ConnState::Closed ==> (r matches Err(e) && e@
                == DbErrorV::ConnectionClosed && final(self)@ == old(self)@),
            old(self)@.state == ConnState::Connected && !row_conforms(
                req@.row,
                req@.schema.columns,
            ) ==> ({
                &&& final(self)@ == old(self)@
                &&& r matches Err(e) && match e@ {
                DbErrorV::ValidationMissingColumn { column } => crate::schema::has_col(
                    req@.schema.columns,
                    column,
                ) && !crate::row::has_entry(req@.row, column),
                DbErrorV::ValidationTypeMismatch { column } => exists|i: int|
                    0 <= i < req@.schema.columns.len() && (
                    #[trigger] req@.schema.columns[i]).name == column && match crate::row::lookup_entry(
                        req@.row,
                        column,
                    ) {
                        Some(v) => !crate::values::value_fits(
                            v,
                            req@.schema.columns[i].logical_type,
                            req@.schema.columns[i].nullable,
                        ),
                        None => false,
                    },
                DbErrorV::ValidationUnknownColumn { column } => crate::row::has_entry(
                    req@.row,
                    column,
                ) && !crate::schema::has_col(req@.schema.columns, column),
                    _ => false,
                }
            }),
            old(self)@.state == ConnState::Connected && row_conforms(
                req@.row,
                req@.schema.columns,
            ) ==> {
                let ts = old(self)@.store.tables;
                let name = req@.schema.table_name;
                &&& final(self)@.store.calls == bump(old(self)@.store.calls)
                &&& match r {
                    Ok(()) => has_table(ts, name) && final(self)@.store.tables == append_post(
                        ts,
                        name,
                        record_of(req@.schema.columns, req@.row),
                    ),
                    Err(e) => !has_table(ts, name) && final(self)@.store.tables == ts && e@ == (
                    DbErrorV::StoreMissingTable { table: name }),
                }
            },
    {
        if !self.is_open() {
            return Err(DbError::ConnectionClosed);
        }
        match validate_row(req.schema(), req.row()) {
            Err(e) => Err(e),
            Ok(()) => {
                let rec = crate::query::build_record(req.schema(), req.row());
                self.store.append_record(req.schema().table_name(), rec)
            },
        }
    }

    /// A select builder bound to `schema`, projecting every column in
    /// schema order until narrowed.
    pub fn query(&self, schema: &SchemaDescriptor) -> (q: QueryBuilder)
        requires
            schema.wf(),
        ensures
            q@.schema == schema@,
            q@.projection == crate::query::col_names(schema@.columns),
            q.wf(),
    {
        QueryBuilder::new(schema)
    }

    /// Executes a select: fetches the named table's raw records in their
    /// stored order and decodes each under the builder's projection.  The
    /// decode is all-or-nothing: one raw record that disagrees with the
    /// schema fails the whole call with a decode error naming the column.
    pub fn execute_select(&mut self, q: &QueryBuilder) -> (r: Result<Vec<DecodedRow>, DbError>)
        requires
            old(self).wf(),
            q.wf(),
        ensures
            final(self).wf(),
            final(self)@.state == old(self)@.state,
            final(self)@.target == old(self)@.target,
            final(self)@.registered == old(self)@.registered,
            final(self)@.store.tables == old(self)@.store.tables,
            old(self)@.state == ConnState::Closed ==> (r matches Err(e) && e@
                == DbErrorV::ConnectionClosed && final(self)@ == old(self)@),
            old(self)@.state == ConnState::Connected ==> {
                let ts = old(self)@.store.tables;
                let name = q@.schema.table_name;
                &&& final(self)@.store.calls == bump(old(self)@.store.calls)
                &&& !has_table(ts, name) ==> (r matches Err(e) && e@ == (
                DbErrorV::StoreMissingTable { table: name }))
                &&& has_table(ts, name) ==> {
                    let rrs = ts[table_index(ts, name)].rows;
                    &&& (r is Ok <==> all_records_decode(q@.schema.columns, q@.projection, rrs))
                    &&& match r {
                        Ok(rows) => decoded_rows_view(rows@) == decoded_all(q@.projection, rrs),
                        Err(e) => exists|ri: int|
                            #[trigger] crate::query::first_failing_record(
                                q@.schema.columns,
                                q@.projection,
                                ts[table_index(ts, name)].rows,
                                ri,
                            ) && crate::query::decode_err_matches(
                                q@.schema.columns,
                                q@.projection,
                                ts[table_index(ts, name)].rows[ri],
                                e@,
                            ),
                    }
                }
            },
    {
        if !self.is_open() {
            return Err(DbError::ConnectionClosed);
        }
        match self.store.fetch_records(q.schema().table_name()) {
            Err(e) => Err(e),
            Ok(recs) => decode_records(q.schema(), q.projection(), &recs),
        }
    }
}

impl InsertRequest {
    /// Performs this staged insert on `conn`: the staged-request call shape
    /// of [`Connection::execute_insert`], with the same behaviour.
    pub fn execute(&self, conn: &mut Connection) -> (r: Result<(), DbError>)
        requires
            old(conn).wf(),
            self.wf(),
        ensures
            final(conn).wf(),
            final(conn)@.state == old(conn)@.state,
            final(conn)@.target == old(conn)@.target,
            final(conn)@.registered == old(conn)@.registered,
            old(conn)@.state == ConnState::Closed ==> (r matches Err(e) && e@
                == DbErrorV::ConnectionClosed && final(conn)@ == old(conn)@),
            old(conn)@.state == ConnState::Connected && !row_conforms(
                self@.row,
                self@.schema.columns,
            ) ==> ({
                &&& final(conn)@ == old(conn)@
                &&& r matches Err(e) && match e@ {
                    DbErrorV::ValidationMissingColumn { column } => crate::schema::has_col(
                        self@.schema.columns,
                        column,
                    ) && !crate::row::has_entry(self@.row, column),
                    DbErrorV::ValidationTypeMismatch { column } => exists|i: int|
                        0 <= i < self@.schema.columns.len() && (
                        #[trigger] self@.schema.columns[i]).name == column && match crate::row::lookup_entry(
                            self@.row,
                            column,
                        ) {
                            Some(v) => !crate::values::value_fits(
                                v,
                                self@.schema.columns[i].logical_type,
                                self@.schema.columns[i].nullable,
                            ),
                            None => false,
                        },
                    DbErrorV::ValidationUnknownColumn { column } => crate::row::has_entry(
                        self@.row,
                        column,
                    ) && !crate::schema::has_col(self@.schema.columns, column),
                    _ => false,
                }
            }),
            old(conn)@.state == ConnState::Connected && row_conforms(
                self@.row,
                self@.schema.columns,
            ) ==> {
                let ts = old(conn)@.store.tables;
                let name = self@.schema.table_name;
                &&& final(conn)@.store.calls == bump(old(conn)@.store.calls)
                &&& match r {
                    Ok(()) => has_table(ts, name) && final(conn)@.store.tables == append_post(
                        ts,
                        name,
                        record_of(self@.schema.columns, self@.row),
                    ),
                    Err(e) => !has_table(ts, name) && final(conn)@.store.tables == ts && e@ == (
                    DbErrorV::StoreMissingTable { table: name }),
                }
            },
    {
        conn.execute_insert(self)
    }
}

impl QueryBuilder {
    /// Runs this select on `conn`: the builder call shape of
    /// [`Connection::execute_select`], with the same behaviour.
    pub fn execute(&self, conn: &mut Connection) -> (r: Result<Vec<DecodedRow>, DbError>)
        requires
            old(conn).wf(),
            self.wf(),
        ensures
            final(conn).wf(),
            final(conn)@.state == old(conn)@.state,
            final(conn)@.target == old(conn)@.target,
            final(conn)@.registered == old(conn)@.registered,
            final(conn)@.store.tables == old(conn)@.store.tables,
            old(conn)@.state == ConnState::Closed ==> (r matches Err(e) && e@
                == DbErrorV::ConnectionClosed && final(conn)@ == old(conn)@),
            old(conn)@.state == ConnState::Connected ==> {
                let ts = old(conn)@.store.tables;
                let name = self@.schema.table_name;
                &&& final(conn)@.store.calls == bump(old(conn)@.store.calls)
                &&& !has_table(ts, name) ==> (r matches Err(e) && e@ == (
                DbErrorV::StoreMissingTable { table: name }))
                &&& has_table(ts, name) ==> {
                    let rrs = ts[table_index(ts, name)].rows;
                    &&& (r is Ok <==> all_records_decode(
                        self@.schema.columns,
                        self@.projection,
                        rrs,
                    ))
                    &&& match r {
                        Ok(rows) => decoded_rows_view(rows@) == decoded_all(
                            self@.projection,
                            rrs,
                        ),
                        Err(e) => exists|ri: int|
                            #[trigger] crate::query::first_failing_record(
                                self@.schema.columns,
                                self@.projection,
                                ts[table_index(ts, name)].rows,
                                ri,
                            ) && crate::query::decode_err_matches(
                                self@.schema.columns,
                                self@.projection,
                                ts[table_index(ts, name)].rows[ri],
                                e@,
                            ),
                    }
                }
            },
    {
        conn.execute_select(self)
    }
}

} // verus!
