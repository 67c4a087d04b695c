use vstd::prelude::*;

use crate::errors::{DbError, DbErrorV};
use crate::schema::{ColumnV, SchemaDescriptor, has_col};
use crate::values::{Value, ValueV, value_fits};

verus! {

/// Mathematical model of one named field of a row or record.
pub struct NamedValueV {
    pub name: Seq<char>,
    pub value: ValueV,
}

/// One named field: a column name paired with a concrete value.
#[derive(Debug, PartialEq, Eq)]
pub struct NamedValue {
    pub name: String,
    pub value: Value,
}

impl View for NamedValue {
    type V = NamedValueV;

    open spec fn view(&self) -> NamedValueV {
        NamedValueV { name: self.name@, value: self.value@ }
    }
}

impl NamedValue {
    /// An equal copy of this field.
    pub fn duplicate(&self) -> (r: NamedValue)
        ensures
            r@ == self@,
    {
        NamedValue { name: self.name.clone(), value: self.value.duplicate() }
    }
}

/// The models of a sequence of named fields.
pub open spec fn entries_view(es: Seq<NamedValue>) -> Seq<NamedValueV> {
    es.map_values(|e: NamedValue| e@)
}

/// The value of the first field named `n`, if any.
pub open spec fn lookup_entry(es: Seq<NamedValueV>, n: Seq<char>) -> Option<ValueV>
    decreases es.len(),
{
    if es.len() == 0 {
        None
    } else if es[0].name == n {
        Some(es[0].value)
    } else {
        lookup_entry(es.drop_first(), n)
    }
}

/// Whether some field of `es` is named `n`.
pub open spec fn has_entry(es: Seq<NamedValueV>, n: Seq<char>) -> bool {
    exists|i: int| 0 <= i < es.len() && es[i].name == n
}

/// No two fields share a name.
pub open spec fn distinct_entry_names(es: Seq<NamedValueV>) -> bool {
    forall|i: int, j: int| 0 <= i < j < es.len() ==> es[i].name != es[j].name
}

/// The lookup succeeds exactly on the names `es` has, and returns the value
/// of a field carrying the looked-up name.
pub proof fn lemma_lookup_entry_props(es: Seq<NamedValueV>, n: Seq<char>)
    ensures
        lookup_entry(es, n) is Some <==> has_entry(es, n),
        match lookup_entry(es, n) {
            Some(v) => exists|i: int| 0 <= i < es.len() && es[i].name == n && es[i].value == v,
            None => true,
        },
    decreases es.len(),
{
    if es.len() == 0 {
    } else if es[0].name == n {
    } else {
        lemma_lookup_entry_props(es.drop_first(), n);
        if has_entry(es.drop_first(), n) {
            let i = choose|i: int| 0 <= i < es.drop_first().len() && es.drop_first()[i].name == n;
            assert(es[i + 1].name == n);
        }
        if has_entry(es, n) {
            let i = choose|i: int| 0 <= i < es.len() && es[i].name == n;
            assert(es.drop_first()[i - 1].name == n);
        }
        match lookup_entry(es.drop_first(), n) {
            Some(v) => {
                let i = choose|i: int|
                    0 <= i < es.drop_first().len() && es.drop_first()[i].name == n
                        && es.drop_first()[i].value == v;
                assert(es[i + 1].name == n && es[i + 1].value == v);
            },
            None => {},
        }
    }
}

/// Looking up a name whose first occurrence in `es` is at `i` yields the
/// value stored at `i`.
pub proof fn lemma_lookup_entry_first_match(es: Seq<NamedValueV>, n: Seq<char>, i: int)
    requires
        0 <= i < es.len(),
        es[i].name == n,
        forall|a: int| 0 <= a < i ==> es[a].name != n,
    ensures
        lookup_entry(es, n) == Some(es[i].value),
    decreases es.len(),
{
    if i == 0 {
    } else {
        lemma_lookup_entry_first_match(es.drop_first(), n, i - 1);
    }
}

/// Whether the fields `es` cover column `c`: a field named like `c` exists
/// and its value fits `c`'s type and nullability.
pub open spec fn col_covered(es: Seq<NamedValueV>, c: ColumnV) -> bool {
    match lookup_entry(es, c.name) {
        Some(v) => value_fits(v, c.logical_type, c.nullable),
        None => false,
    }
}

/// A row conforms to a set of columns when every column has a field of the
/// row whose value fits the column's type and nullability, and every field
/// of the row names some column.
pub open spec fn row_conforms(es: Seq<NamedValueV>, cols: Seq<ColumnV>) -> bool {
    &&& forall|i: int| 0 <= i < cols.len() ==> col_covered(es, #[trigger] cols[i])
    &&& forall|k: int| 0 <= k < es.len() ==> has_col(cols, (#[trigger] es[k]).name)
}

/// One concrete instance of a schema for insertion: a mapping from column
/// name to value.  `set` keeps it a mapping (a repeated name replaces the
/// earlier value), so the field names are always distinct.
#[derive(Debug, PartialEq, Eq)]
pub struct Row {
    entries: Vec<NamedValue>,
}

impl View for Row {
    type V = Seq<NamedValueV>;

    closed spec fn view(&self) -> Seq<NamedValueV> {
        entries_view(self.entries@)
    }
}

impl Row {
    /// The field names are distinct; every `Row` operation preserves this.
    pub open spec fn wf(&self) -> bool {
        distinct_entry_names(self@)
    }

    /// An empty row.
    pub fn new() -> (r: Row)
        ensures
            r@ == Seq::<NamedValueV>::empty(),
            r.wf(),
    {
        let r = Row { entries: Vec::new() };
        proof {
            assert(r@ =~= Seq::<NamedValueV>::empty());
        }
        r
    }

    /// Binds `name` to `value`: replaces the value of the field already
    /// named `name`, or appends a new field.
    pub fn set(&mut self, name: String, value: Value)
        requires
            old(self).wf(),
        ensures
            final(self).wf(),
            ({
                let e = NamedValueV { name: name@, value: value@ };
                if has_entry(old(self)@, name@) {
                    final(self)@ == old(self)@.update(
                        choose|i: int| 0 <= i < old(self)@.len() && old(self)@[i].name == name@,
                        e,
                    )
                } else {
                    final(self)@ == old(self)@.push(e)
                }
            }),
    {
        let ghost prev = self@;
        let mut i: usize = 0;
        while i < self.entries.len()
            invariant
                i <= self.entries.len(),
                self@ == prev,
                prev == old(self)@,
                distinct_entry_names(prev),
                self.entries@.len() == prev.len(),
                forall|a: int| 0 <= a < i ==> prev[a].name != name@,
            decreases self.entries.len() - i,
        {
            if self.entries[i].name == name {
                let e = NamedValue { name, value };
                self.entries.set(i, e);
                proof {
                    let gi = i as int;
                    assert(prev[gi].name == e@.name);
                    assert(has_entry(prev, e@.name));
                    let w = choose|k: int| 0 <= k < prev.len() && prev[k].name == e@.name;
                    assert(w == gi) by {
                        if w < gi {
                            assert(prev[w].name != e@.name);
                        }
                        if w > gi {
                            assert(distinct_entry_names(prev));
                        }
                    }
                    assert(self@ =~= prev.update(gi, e@));
                    assert(distinct_entry_names(self@)) by {
                        assert(forall|a: int|
                            0 <= a < prev.len() && a != gi ==> self@[a].name == prev[a].name);
                    }
                }
                return ;
            }
            i = i + 1;
        }
        let e = NamedValue { name, value };
        self.entries.push(e);
        proof {
            assert(!has_entry(prev, e@.name));
            assert(self@ =~= prev.push(e@));
            assert(distinct_entry_names(self@)) by {
                assert(forall|a: int| 0 <= a < prev.len() ==> self@[a].name == prev[a].name);
                assert(self@[prev.len() as int].name == e@.name);
            }
        }
    }

    /// The value bound to `name`, or `None` if the row has no such field.
    pub fn get(&self, name: &String) -> (r: Option<&Value>)
        ensures
            match r {
                Some(v) => lookup_entry(self@, name@) == Some(v@),
                None => lookup_entry(self@, name@) is None,
            },
    {
        find_entry(&self.entries, name)
    }

    /// How many fields the row has.
    pub fn len(&self) -> (n: usize)
        ensures
            n == self@.len(),
    {
        self.entries.len()
    }

    /// An equal copy of this row.
    pub fn duplicate(&self) -> (r: Row)
        ensures
            r@ == self@,
    {
        let r = Row { entries: duplicate_entries(&self.entries) };
        proof {
            assert(r@ =~= self@);
        }
        r
    }
}

/// The value of the first field named `name` in `es`, or `None`.
pub(crate) fn find_entry<'a>(es: &'a Vec<NamedValue>, name: &String) -> (r: Option<&'a Value>)
    ensures
        match r {
            Some(v) => lookup_entry(entries_view(es@), name@) == Some(v@),
            None => lookup_entry(entries_view(es@), name@) is None,
        },
{
    let ghost ev = entries_view(es@);
    let mut i: usize = 0;
    while i < es.len()
        invariant
            i <= es.len(),
            ev == entries_view(es@),
            forall|a: int| 0 <= a < i ==> ev[a].name != name@,
        decreases es.len() - i,
    {
        if es[i].name == *name {
            proof {
                lemma_lookup_entry_first_match(ev, name@, i as int);
            }
            return Some(&es[i].value);
        }
        i = i + 1;
    }
    proof {
        lemma_lookup_entry_props(ev, name@);
    }
    None
}

/// An element-wise copy of a sequence of named fields.
pub(crate) fn duplicate_entries(es: &Vec<NamedValue>) -> (r: Vec<NamedValue>)
    ensures
        entries_view(r@) == entries_view(es@),
{
    let mut out: Vec<NamedValue> = Vec::new();
    let mut i: usize = 0;
    while i < es.len()
        invariant
            i <= es.len(),
            out@.len() == i,
            forall|k: int| 0 <= k < i ==> out@[k]@ == es@[k]@,
        decreases es.len() - i,
    {
        out.push(es[i].duplicate());
        i = i + 1;
    }
    proof {
        assert(entries_view(out@) =~= entries_view(es@));
    }
    out
}

/// Checks that `row` conforms to the columns of `schema`: every schema
/// column must be present with a fitting value, and every field of the row
/// must name a schema column.  Runs no store call and reports the offending
/// column of the first violation, scanning schema columns first and then
/// extra row fields.
pub fn validate_row(schema: &SchemaDescriptor, row: &Row) -> (r: Result<(), DbError>)
    ensures
        r is Ok <==> row_conforms(row@, schema@.columns),
        match r {
            Ok(()) => true,
            Err(e) => match e@ {
                DbErrorV::ValidationMissingColumn { column } => has_col(schema@.columns, column)
                    && !has_entry(row@, column),
                DbErrorV::ValidationTypeMismatch { column } => exists|i: int|
                    0 <= i < schema@.columns.len() && schema@.columns[i].name == column && match
                        lookup_entry(row@, column) {
                        Some(v) => !value_fits(
                            v,
                            schema@.columns[i].logical_type,
                            schema@.columns[i].nullable,
                        ),
                        None => false,
                    },
                DbErrorV::ValidationUnknownColumn { column } => has_entry(row@, column) && !has_col(
                    schema@.columns,
                    column,
                ),
                _ => false,
            },
        },
{
    let cols = schema.columns();
    let ghost cv = schema@.columns;
    let mut i: usize = 0;
    while i < cols.len()
        invariant
            i <= cols.len(),
            cv == crate::schema::cols_view(cols@),
            cv == schema@.columns,
            forall|a: int| 0 <= a < i ==> col_covered(row@, #[trigger] cv[a]),
        decreases cols.len() - i,
    {
        let c = &cols[i];
        match row.get(&c.name) {
            Some(v) => {
                if !v.fits(c.logical_type, c.nullable) {
                    proof {
                        let gi = i as int;
                        assert(cv[gi].name == c@.name);
                    }
                    return Err(DbError::ValidationTypeMismatch { column: c.name.clone() });
                }
            },
            None => {
                proof {
                    let gi = i as int;
                    assert(cv[gi].name == c@.name);
                    lemma_lookup_entry_props(row@, c@.name);
                }
                return Err(DbError::ValidationMissingColumn { column: c.name.clone() });
            },
        }
        i = i + 1;
    }
    let n = row.len();
    let mut k: usize = 0;
    while k < n
        invariant
            n == row@.len(),
            k <= n,
            cv == schema@.columns,
            forall|a: int| 0 <= a < cv.len() ==> col_covered(row@, #[trigger] cv[a]),
            forall|a: int| 0 <= a < k ==> has_col(cv, (#[trigger] row@[a]).name),
        decreases n - k,
    {
        let field_name = row.field_name(k);
        match schema.column(field_name) {
            Some(_) => {
                proof {
                    crate::schema::lemma_lookup_col_props(cv, field_name@);
                }
            },
            None => {
                proof {
                    let gk = k as int;
                    assert(row@[gk].name == field_name@);
                    assert(has_entry(row@, field_name@));
                }
                return Err(DbError::ValidationUnknownColumn { column: field_name.clone() });
            },
        }
        k = k + 1;
    }
    Ok(())
}

impl Row {
    /// The name of field `k`, in insertion order.
    pub fn field_name(&self, k: usize) -> (r: &String)
        requires
            k < self@.len(),
        ensures
            r@ == self@[k as int].name,
    {
        &self.entries[k].name
    }
}

} // verus!
