use vstd::prelude::*;

use crate::errors::{DbError, DbErrorV};
use crate::row::{NamedValue, NamedValueV, Row, entries_view, find_entry, lookup_entry};
use crate::schema::{
    ColumnV, SchemaDescriptor, SchemaV, cols_view, has_col, lemma_lookup_col_props, lookup_col,
    schema_wf,
};
use crate::store::Record;
use crate::values::{Value, ValueV, value_fits};

verus! {

/// The models of a sequence of names.
pub open spec fn names_view(ns: Seq<String>) -> Seq<Seq<char>> {
    ns.map_values(|s: String| s@)
}

/// No name repeats.
pub open spec fn distinct_names(ns: Seq<Seq<char>>) -> bool {
    forall|i: int, j: int| 0 <= i < j < ns.len() ==> ns[i] != ns[j]
}

/// The names of a sequence of columns, in column order.
pub open spec fn col_names(cols: Seq<ColumnV>) -> Seq<Seq<char>> {
    cols.map_values(|c: ColumnV| c.name)
}

/// A projection is valid for a set of columns when every projected name is
/// a column name and no name repeats.
pub open spec fn valid_projection(p: Seq<Seq<char>>, cols: Seq<ColumnV>) -> bool {
    &&& distinct_names(p)
    &&& forall|i: int| 0 <= i < p.len() ==> has_col(cols, #[trigger] p[i])
}

/// A caller-chosen ordered subset of a schema's column names, checked at
/// build time: every name must exist in the schema and none may repeat.
#[derive(Debug)]
pub struct Projection {
    names: Vec<String>,
}

impl View for Projection {
    type V = Seq<Seq<char>>;

    closed spec fn view(&self) -> Seq<Seq<char>> {
        names_view(self.names@)
    }
}

impl Projection {
    /// Validates `names` against `schema` and builds the projection.  An
    /// unknown or repeated column name is rejected here, before any store
    /// call can happen.
    pub fn of_names(schema: &SchemaDescriptor, names: Vec<String>) -> (r: Result<
        Projection,
        DbError,
    >)
        ensures
            r is Ok <==> valid_projection(names_view(names@), schema@.columns),
            match r {
                Ok(p) => p@ == names_view(names@),
                Err(e) => match e@ {
                    DbErrorV::ValidationUnknownColumn { column } => exists|i: int|
                        0 <= i < names@.len() && (#[trigger] names@[i])@ == column && !has_col(
                            schema@.columns,
                            column,
                        ),
                    DbErrorV::ValidationDuplicateColumn { column } => exists|i: int, j: int|
                        #![trigger names@[i], names@[j]]
                        0 <= i < j < names@.len() && names@[i]@ == names@[j]@ && names@[j]@
                            == column,
                    _ => false,
                },
            },
    {
        let ghost nv = names_view(names@);
        let mut j: usize = 0;
        while j < names.len()
            invariant
                j <= names.len(),
                nv == names_view(names@),
                forall|a: int| 0 <= a < j ==> has_col(schema@.columns, #[trigger] nv[a]),
                forall|a: int, b: int| 0 <= a < b < j ==> nv[a] != nv[b],
            decreases names.len() - j,
        {
            if schema.column(&names[j]).is_none() {
                proof {
                    let gj = j as int;
                    lemma_lookup_col_props(schema@.columns, nv[gj]);
                    assert(exists|i: int|
                        0 <= i < names@.len() && (#[trigger] names@[i])@ == nv[gj] && !has_col(
                            schema@.columns,
                            nv[gj],
                        )) by {
                        assert((#[trigger] names@[gj])@ == nv[gj]);
                    }
                }
                return Err(DbError::ValidationUnknownColumn { column: names[j].clone() });
            }
            proof {
                lemma_lookup_col_props(schema@.columns, nv[j as int]);
            }
            let mut i: usize = 0;
            while i < j
                invariant
                    i <= j < names.len(),
                    nv == names_view(names@),
                    forall|a: int| 0 <= a < i ==> nv[a] != nv[j as int],
                decreases j - i,
            {
                if names[i] == names[j] {
                    proof {
                        let gi = i as int;
                        let gj = j as int;
                        assert(exists|a: int, b: int|
                            #![trigger names@[a], names@[b]]
                            0 <= a < b < names@.len() && names@[a]@ == names@[b]@ && names@[b]@
                                == nv[gj]) by {
                            assert(names@[gi]@ == names@[gj]@ && names@[gj]@ == nv[gj]);
                        }
                        assert(!distinct_names(nv)) by {
                            assert(nv[gi] == nv[gj]);
                        }
                    }
                    return Err(DbError::ValidationDuplicateColumn { column: names[j].clone() });
                }
                i = i + 1;
            }
            j = j + 1;
        }
        Ok(Projection { names })
    }

    /// The full projection of a schema: every column name, in schema order.
    pub fn full(schema: &SchemaDescriptor) -> (p: Projection)
        requires
            schema.wf(),
        ensures
            p@ == col_names(schema@.columns),
            valid_projection(p@, schema@.columns),
    {
        let cols = schema.columns();
        let mut names: Vec<String> = Vec::new();
        let mut i: usize = 0;
        while i < cols.len()
            invariant
                i <= cols.len(),
                cols_view(cols@) == schema@.columns,
                names@.len() == i,
                forall|k: int| 0 <= k < i ==> names@[k]@ == schema@.columns[k].name,
            decreases cols.len() - i,
        {
            names.push(cols[i].name.clone());
            i = i + 1;
        }
        let p = Projection { names };
        proof {
            assert(p@ =~= col_names(schema@.columns));
            assert(forall|a: int|
                0 <= a < p@.len() ==> has_col(schema@.columns, #[trigger] p@[a])) by {
                assert(forall|a: int|
                    0 <= a < schema@.columns.len() ==> (#[trigger] schema@.columns[a]).name
                        == p@[a]);
            }
        }
        p
    }

    /// How many columns are projected.
    pub fn len(&self) -> (n: usize)
        ensures
            n == self@.len(),
    {
        self.names.len()
    }

    /// The projected names, in order.
    pub(crate) fn names(&self) -> (r: &Vec<String>)
        ensures
            names_view(r@) == self@,
    {
        &self.names
    }

    /// An equal copy of this projection.
    pub fn duplicate(&self) -> (p: Projection)
        ensures
            p@ == self@,
    {
        let mut names: Vec<String> = Vec::new();
        let mut i: usize = 0;
        while i < self.names.len()
            invariant
                i <= self.names.len(),
                names@.len() == i,
                forall|k: int| 0 <= k < i ==> names@[k]@ == self.names@[k]@,
            decreases self.names.len() - i,
        {
            names.push(self.names[i].clone());
            i = i + 1;
        }
        let p = Projection { names };
        proof {
            assert(p@ =~= self@);
        }
        p
    }
}

/// One decoded result record: the projected columns of a raw record, each
/// coerced to its column's logical type.
#[derive(Debug, PartialEq, Eq)]
pub struct DecodedRow {
    entries: Vec<NamedValue>,
}

impl View for DecodedRow {
    type V = Seq<NamedValueV>;

    closed spec fn view(&self) -> Seq<NamedValueV> {
        entries_view(self.entries@)
    }
}

impl DecodedRow {
    /// The typed value of `name`, or `None` when `name` was projected out
    /// (or never existed): the caller must distinguish the two against the
    /// schema, the row itself cannot.
    pub fn get(&self, name: &String) -> (r: Option<&Value>)
        ensures
            match r {
                Some(v) => lookup_entry(self@, name@) == Some(v@),
                None => lookup_entry(self@, name@) is None,
            },
    {
        find_entry(&self.entries, name)
    }

    /// How many columns the decoded row carries.
    pub fn len(&self) -> (n: usize)
        ensures
            n == self@.len(),
    {
        self.entries.len()
    }
}

/// The value bound to `n` in a raw record, or `Null` when `n` is absent;
/// decode only reads it where an entry exists.
pub open spec fn entry_value_of(rec: Seq<NamedValueV>, n: Seq<char>) -> ValueV {
    match lookup_entry(rec, n) {
        Some(v) => v,
        None => ValueV::Null,
    }
}

/// Whether raw record `rec` decodes at column name `n` of `cols`: the
/// column exists, the record has the column, and the raw value fits the
/// column's type.
pub open spec fn decode_col_ok(cols: Seq<ColumnV>, rec: Seq<NamedValueV>, n: Seq<char>) -> bool {
    match lookup_col(cols, n) {
        Some(c) => match lookup_entry(rec, n) {
            Some(v) => value_fits(v, c.logical_type, c.nullable),
            None => false,
        },
        None => false,
    }
}

/// Whether a whole raw record decodes under a projection.
pub open spec fn record_decodes(
    cols: Seq<ColumnV>,
    proj: Seq<Seq<char>>,
    rec: Seq<NamedValueV>,
) -> bool {
    forall|i: int| 0 <= i < proj.len() ==> decode_col_ok(cols, rec, #[trigger] proj[i])
}

/// The decoded form of a raw record under a projection: one entry per
/// projected name, in projection order, carrying the record's value.
pub open spec fn decoded_record(proj: Seq<Seq<char>>, rec: Seq<NamedValueV>) -> Seq<NamedValueV> {
    Seq::new(proj.len(), |i| NamedValueV { name: proj[i], value: entry_value_of(rec, proj[i]) })
}

/// The decoded forms of a sequence of raw records.
pub open spec fn decoded_all(proj: Seq<Seq<char>>, rrs: Seq<Seq<NamedValueV>>) -> Seq<
    Seq<NamedValueV>,
> {
    rrs.map_values(|rec: Seq<NamedValueV>| decoded_record(proj, rec))
}

/// Whether every raw record decodes under the projection.
pub open spec fn all_records_decode(
    cols: Seq<ColumnV>,
    proj: Seq<Seq<char>>,
    rrs: Seq<Seq<NamedValueV>>,
) -> bool {
    forall|i: int| 0 <= i < rrs.len() ==> record_decodes(cols, proj, #[trigger] rrs[i])
}

/// The models of a sequence of decoded rows.
pub open spec fn decoded_rows_view(rows: Seq<DecodedRow>) -> Seq<Seq<NamedValueV>> {
    rows.map_values(|r: DecodedRow| r@)
}

/// Record `ri` is the first of `rrs` that does not decode.
pub open spec fn first_failing_record(
    cols: Seq<ColumnV>,
    proj: Seq<Seq<char>>,
    rrs: Seq<Seq<NamedValueV>>,
    ri: int,
) -> bool {
    &&& 0 <= ri < rrs.len()
    &&& !record_decodes(cols, proj, rrs[ri])
    &&& forall|a: int| 0 <= a < ri ==> record_decodes(cols, proj, #[trigger] rrs[a])
}

/// The decode error `ev` truthfully describes a failure of record `rec`:
/// it names a projected column that the record misses, or one whose raw
/// value does not fit the column's type.
pub open spec fn decode_err_matches(
    cols: Seq<ColumnV>,
    proj: Seq<Seq<char>>,
    rec: Seq<NamedValueV>,
    ev: crate::errors::DbErrorV,
) -> bool {
    match ev {
        DbErrorV::DecodeMissingColumn { column } => proj.contains(column) && lookup_entry(
            rec,
            column,
        ) is None,
        DbErrorV::DecodeTypeMismatch { column } => proj.contains(column) && match lookup_col(
            cols,
            column,
        ) {
            Some(c) => match lookup_entry(rec, column) {
                Some(v) => !value_fits(v, c.logical_type, c.nullable),
                None => false,
            },
            None => false,
        },
        _ => false,
    }
}

/// Decodes raw records under a projection that is valid for `schema`.
/// All-or-nothing twice over: a record either decodes fully or fails the
/// whole call, and the first failure is reported with the offending column.
/// Result order preserves record order; nothing is reordered or dropped.
pub fn decode_records(schema: &SchemaDescriptor, proj: &Projection, recs: &Vec<Record>) -> (r:
    Result<Vec<DecodedRow>, DbError>)
    requires
        valid_projection(proj@, schema@.columns),
    ensures
        r is Ok <==> all_records_decode(
            schema@.columns,
            proj@,
            crate::store::records_view(recs@),
        ),
        match r {
            Ok(rows) => decoded_rows_view(rows@) == decoded_all(
                proj@,
                crate::store::records_view(recs@),
            ),
            Err(e) => exists|ri: int|
                #[trigger] first_failing_record(
                    schema@.columns,
                    proj@,
                    crate::store::records_view(recs@),
                    ri,
                ) && decode_err_matches(
                    schema@.columns,
                    proj@,
                    crate::store::records_view(recs@)[ri],
                    e@,
                ),
        },
{
    let ghost cols = schema@.columns;
    let ghost pv = proj@;
    let ghost rrs = crate::store::records_view(recs@);
    let names = proj.names();
    let mut out: Vec<DecodedRow> = Vec::new();
    let mut ri: usize = 0;
    while ri < recs.len()
        invariant
            ri <= recs.len(),
            cols == schema@.columns,
            pv == proj@,
            names_view(names@) == pv,
            rrs == crate::store::records_view(recs@),
            rrs.len() == recs@.len(),
            valid_projection(pv, cols),
            out@.len() == ri,
            forall|a: int| 0 <= a < ri ==> record_decodes(cols, pv, #[trigger] rrs[a]),
            forall|a: int| 0 <= a < ri ==> (#[trigger] out@[a])@ == decoded_record(pv, rrs[a]),
        decreases recs.len() - ri,
    {
        let rec = &recs[ri];
        let ghost rv = rec@;
        proof {
            assert(rrs[ri as int] == rv);
        }
        let entries = rec.entries();
        let mut fields: Vec<NamedValue> = Vec::new();
        let mut pi: usize = 0;
        while pi < names.len()
            invariant
                pi <= names.len(),
                cols == schema@.columns,
                pv == proj@,
                names_view(names@) == pv,
                rrs == crate::store::records_view(recs@),
                rrs.len() == recs@.len(),
                ri < recs.len(),
                rrs[ri as int] == rv,
                entries_view(entries@) == rv,
                valid_projection(pv, cols),
                out@.len() == ri,
                forall|a: int| 0 <= a < ri ==> record_decodes(cols, pv, #[trigger] rrs[a]),
                forall|a: int|
                    0 <= a < ri ==> (#[trigger] out@[a])@ == decoded_record(pv, rrs[a]),
                fields@.len() == pi,
                forall|a: int| 0 <= a < pi ==> decode_col_ok(cols, rv, #[trigger] pv[a]),
                forall|a: int|
                    0 <= a < pi ==> (#[trigger] fields@[a])@ == (NamedValueV {
                        name: pv[a],
                        value: entry_value_of(rv, pv[a]),
                    }),
            decreases names.len() - pi,
        {
            let name = &names[pi];
            proof {
                assert(pv[pi as int] == name@);
            }
            let col = match schema.column(name) {
                Some(c) => c,
                None => {
                    proof {
                        lemma_lookup_col_props(cols, name@);
                        assert(has_col(cols, pv[pi as int]));
                        assert(false);
                    }
                    return Err(DbError::DecodeMissingColumn { column: name.clone() });
                },
            };
            match find_entry(entries, name) {
                None => {
                    proof {
                        let gp = pi as int;
                        assert(!decode_col_ok(cols, rv, pv[gp]));
                        assert(!record_decodes(cols, pv, rv));
                        assert(pv.contains(pv[gp]));
                        assert(first_failing_record(cols, pv, rrs, ri as int));
                        assert(decode_err_matches(
                            cols,
                            pv,
                            rrs[ri as int],
                            DbErrorV::DecodeMissingColumn { column: name@ },
                        ));
                    }
                    return Err(DbError::DecodeMissingColumn { column: name.clone() });
                },
                Some(v) => {
                    if !v.fits(col.logical_type, col.nullable) {
                        proof {
                            let gp = pi as int;
                            assert(!decode_col_ok(cols, rv, pv[gp]));
                            assert(!record_decodes(cols, pv, rv));
                            assert(pv.contains(pv[gp]));
                            assert(first_failing_record(cols, pv, rrs, ri as int));
                            assert(decode_err_matches(
                                cols,
                                pv,
                                rrs[ri as int],
                                DbErrorV::DecodeTypeMismatch { column: name@ },
                            ));
                        }
                        return Err(DbError::DecodeTypeMismatch { column: name.clone() });
                    }
                    fields.push(NamedValue { name: name.clone(), value: v.duplicate() });
                },
            }
            pi = pi + 1;
        }
        let drow = DecodedRow { entries: fields };
        proof {
            assert(drow@ =~= decoded_record(pv, rv));
            assert(record_decodes(cols, pv, rv));
        }
        out.push(drow);
        ri = ri + 1;
    }
    proof {
        assert(decoded_rows_view(out@) =~= decoded_all(pv, rrs));
    }
    Ok(out)
}

/// Mathematical model of a staged select request.
pub struct QueryV {
    pub schema: SchemaV,
    pub projection: Seq<Seq<char>>,
}

/// A select request under construction: a schema and the columns to fetch,
/// full schema order unless narrowed by [`QueryBuilder::select`].  The
/// builder is reusable: executing it never consumes it.
#[derive(Debug)]
pub struct QueryBuilder {
    schema: SchemaDescriptor,
    projection: Projection,
}

impl View for QueryBuilder {
    type V = QueryV;

    closed spec fn view(&self) -> QueryV {
        QueryV { schema: self.schema@, projection: self.projection@ }
    }
}

impl QueryBuilder {
    /// The builder's schema is well-formed and its projection valid.
    pub open spec fn wf(&self) -> bool {
        &&& schema_wf(self@.schema)
        &&& valid_projection(self@.projection, self@.schema.columns)
    }

    /// A builder over the full projection of `schema`.
    pub fn new(schema: &SchemaDescriptor) -> (q: QueryBuilder)
        requires
            schema.wf(),
        ensures
            q@.schema == schema@,
            q@.projection == col_names(schema@.columns),
            q.wf(),
    {
        let projection = Projection::full(schema);
        QueryBuilder { schema: schema.duplicate(), projection }
    }

    /// Narrows the columns to fetch.  Every name is validated against the
    /// schema here, at build time: an unknown or repeated column fails with
    /// the matching validation error before any store call.
    pub fn select(self, names: Vec<String>) -> (r: Result<QueryBuilder, DbError>)
        requires
            self.wf(),
        ensures
            r is Ok <==> valid_projection(names_view(names@), self@.schema.columns),
            match r {
                Ok(q) => q@.schema == self@.schema && q@.projection == names_view(names@)
                    && q.wf(),
                Err(e) => match e@ {
                    DbErrorV::ValidationUnknownColumn { column } => exists|i: int|
                        0 <= i < names@.len() && (#[trigger] names@[i])@ == column && !has_col(
                            self@.schema.columns,
                            column,
                        ),
                    DbErrorV::ValidationDuplicateColumn { column } => exists|i: int, j: int|
                        #![trigger names@[i], names@[j]]
                        0 <= i < j < names@.len() && names@[i]@ == names@[j]@ && names@[j]@
                            == column,
                    _ => false,
                },
            },
    {
        match Projection::of_names(&self.schema, names) {
            Ok(projection) => Ok(QueryBuilder { schema: self.schema, projection }),
            Err(e) => Err(e),
        }
    }

    /// The projected column names, in order.
    pub(crate) fn projection(&self) -> (r: &Projection)
        ensures
            r@ == self@.projection,
    {
        &self.projection
    }

    /// The schema the builder is bound to.
    pub(crate) fn schema(&self) -> (r: &SchemaDescriptor)
        ensures
            r@ == self@.schema,
    {
        &self.schema
    }
}

/// Mathematical model of a staged insert request.
pub struct InsertV {
    pub schema: SchemaV,
    pub row: Seq<NamedValueV>,
}

/// A staged insert: a schema and the row to write.  Nothing is validated
/// or written until the request is executed.
#[derive(Debug)]
pub struct InsertRequest {
    schema: SchemaDescriptor,
    row: Row,
}

impl View for InsertRequest {
    type V = InsertV;

    closed spec fn view(&self) -> InsertV {
        InsertV { schema: self.schema@, row: self.row@ }
    }
}

impl InsertRequest {
    /// The request's schema is well-formed.
    pub open spec fn wf(&self) -> bool {
        schema_wf(self@.schema)
    }

    /// Stages `row` for insertion under `schema`.
    pub fn new(schema: &SchemaDescriptor, row: Row) -> (r: InsertRequest)
        requires
            schema.wf(),
        ensures
            r@.schema == schema@,
            r@.row == row@,
            r.wf(),
    {
        InsertRequest { schema: schema.duplicate(), row }
    }

    /// The schema the row is staged under.
    pub(crate) fn schema(&self) -> (r: &SchemaDescriptor)
        ensures
            r@ == self@.schema,
    {
        &self.schema
    }

    /// The staged row.
    pub(crate) fn row(&self) -> (r: &Row)
        ensures
            r@ == self@.row,
    {
        &self.row
    }
}

/// The raw record written for `row` under columns `cols`: one field per
/// column, in column order, carrying the row's value for that column.
pub open spec fn record_of(cols: Seq<ColumnV>, row: Seq<NamedValueV>) -> Seq<NamedValueV> {
    Seq::new(cols.len(), |i| NamedValueV { name: cols[i].name, value: entry_value_of(row, cols[i].name) })
}

/// Builds the raw record for a conforming row: the row's value for each
/// schema column, in schema order.
pub(crate) fn build_record(schema: &SchemaDescriptor, row: &Row) -> (r: Record)
    requires
        crate::row::row_conforms(row@, schema@.columns),
    ensures
        r@ == record_of(schema@.columns, row@),
{
    let cols = schema.columns();
    let mut rec = Record::new();
    let mut i: usize = 0;
    while i < cols.len()
        invariant
            i <= cols.len(),
            cols_view(cols@) == schema@.columns,
            crate::row::row_conforms(row@, schema@.columns),
            rec@.len() == i,
            forall|a: int|
                0 <= a < i ==> (#[trigger] rec@[a]) == (NamedValueV {
                    name: schema@.columns[a].name,
                    value: entry_value_of(row@, schema@.columns[a].name),
                }),
        decreases cols.len() - i,
    {
        let c = &cols[i];
        proof {
            assert(c@ == schema@.columns[i as int]);
            assert(crate::row::col_covered(row@, schema@.columns[i as int]));
        }
        match row.get(&c.name) {
            Some(v) => {
                rec.push(c.name.clone(), v.duplicate());
            },
            None => {
                proof {
                    assert(false);
                }
            },
        }
        i = i + 1;
    }
    proof {
        assert(rec@ =~= record_of(schema@.columns, row@));
    }
    rec
}

} // verus!
