use vstd::prelude::*;

use crate::errors::{DbError, DbErrorV};
use crate::values::LogicalType;

verus! {

/// Mathematical model of a column descriptor.
pub struct ColumnV {
    pub name: Seq<char>,
    pub logical_type: LogicalType,
    pub nullable: bool,
}

/// One named, typed, nullability-flagged field of a schema.
#[derive(Debug)]
pub struct ColumnDescriptor {
    pub name: String,
    pub logical_type: LogicalType,
    pub nullable: bool,
}

impl View for ColumnDescriptor {
    type V = ColumnV;

    open spec fn view(&self) -> ColumnV {
        ColumnV { name: self.name@, logical_type: self.logical_type, nullable: self.nullable }
    }
}

impl ColumnDescriptor {
    /// A column descriptor with the given name, type and nullability.
    pub fn new(name: String, logical_type: LogicalType, nullable: bool) -> (c: ColumnDescriptor)
        ensures
            c@ == (ColumnV { name: name@, logical_type, nullable }),
    {
        ColumnDescriptor { name, logical_type, nullable }
    }

    /// An equal copy of this descriptor.
    pub fn duplicate(&self) -> (c: ColumnDescriptor)
        ensures
            c@ == self@,
    {
        ColumnDescriptor {
            name: self.name.clone(),
            logical_type: self.logical_type,
            nullable: self.nullable,
        }
    }
}

/// The models of a sequence of column descriptors.
pub open spec fn cols_view(cs: Seq<ColumnDescriptor>) -> Seq<ColumnV> {
    cs.map_values(|c: ColumnDescriptor| c@)
}

/// No two columns share a name.
pub open spec fn distinct_col_names(cs: Seq<ColumnV>) -> bool {
    forall|i: int, j: int| 0 <= i < j < cs.len() ==> cs[i].name != cs[j].name
}

/// Whether some column of `cs` is named `n`.
pub open spec fn has_col(cs: Seq<ColumnV>, n: Seq<char>) -> bool {
    exists|i: int| 0 <= i < cs.len() && cs[i].name == n
}

/// The first column of `cs` named `n`, if any.
pub open spec fn lookup_col(cs: Seq<ColumnV>, n: Seq<char>) -> Option<ColumnV>
    decreases cs.len(),
{
    if cs.len() == 0 {
        None
    } else if cs[0].name == n {
        Some(cs[0])
    } else {
        lookup_col(cs.drop_first(), n)
    }
}

/// The lookup succeeds exactly on the names `cs` has, and returns a column
/// of `cs` carrying the looked-up name.
pub proof fn lemma_lookup_col_props(cs: Seq<ColumnV>, n: Seq<char>)
    ensures
        lookup_col(cs, n) is Some <==> has_col(cs, n),
        match lookup_col(cs, n) {
            Some(c) => c.name == n && exists|i: int| 0 <= i < cs.len() && cs[i] == c,
            None => true,
        },
    decreases cs.len(),
{
    if cs.len() == 0 {
    } else if cs[0].name == n {
    } else {
        lemma_lookup_col_props(cs.drop_first(), n);
        assert(has_col(cs.drop_first(), n) ==> has_col(cs, n)) by {
            if has_col(cs.drop_first(), n) {
                let i = choose|i: int|
                    0 <= i < cs.drop_first().len() && cs.drop_first()[i].name == n;
                assert(cs[i + 1].name == n);
            }
        }
        if has_col(cs, n) {
            let i = choose|i: int| 0 <= i < cs.len() && cs[i].name == n;
            assert(cs.drop_first()[i - 1].name == n);
        }
        match lookup_col(cs.drop_first(), n) {
            Some(c) => {
                let i = choose|i: int|
                    0 <= i < cs.drop_first().len() && cs.drop_first()[i] == c;
                assert(cs[i + 1] == c);
            },
            None => {},
        }
    }
}

/// When names are distinct, looking up the name of column `i` finds exactly
/// column `i`.
pub proof fn lemma_lookup_col_at(cs: Seq<ColumnV>, i: int)
    requires
        distinct_col_names(cs),
        0 <= i < cs.len(),
    ensures
        lookup_col(cs, cs[i].name) == Some(cs[i]),
    decreases cs.len(),
{
    if i == 0 {
    } else {
        assert(cs[0].name != cs[i].name);
        lemma_lookup_col_at(cs.drop_first(), i - 1);
    }
}

/// Mathematical model of a schema descriptor.
pub struct SchemaV {
    pub table_name: Seq<char>,
    pub columns: Seq<ColumnV>,
}

/// A well-formed schema has a non-empty table name, at least one column,
/// and no duplicate column names.
pub open spec fn schema_wf(s: SchemaV) -> bool {
    &&& s.table_name.len() > 0
    &&& s.columns.len() >= 1
    &&& distinct_col_names(s.columns)
}

/// An immutable, named, ordered set of typed columns defining one table.
///
/// Only [`SchemaDescriptor::new`] builds one, and it rejects every
/// description that is not well-formed, so every value of this type
/// satisfies [`schema_wf`].
#[derive(Debug)]
pub struct SchemaDescriptor {
    table_name: String,
    columns: Vec<ColumnDescriptor>,
}

impl View for SchemaDescriptor {
    type V = SchemaV;

    closed spec fn view(&self) -> SchemaV {
        SchemaV { table_name: self.table_name@, columns: cols_view(self.columns@) }
    }
}

impl SchemaDescriptor {
    /// Whether this descriptor is well-formed; established by the
    /// constructor and preserved forever after (the fields are immutable).
    pub open spec fn wf(&self) -> bool {
        schema_wf(self@)
    }

    /// Validates and builds a schema: the table name must be non-empty,
    /// at least one column must be given, and no column name may repeat.
    /// Each violation is reported as the matching validation error, so a
    /// malformed schema is caught at definition time, before any table is
    /// registered.
    pub fn new(table_name: String, columns: Vec<ColumnDescriptor>) -> (r: Result<
        SchemaDescriptor,
        DbError,
    >)
        ensures
            match r {
                Ok(s) => s@ == (SchemaV {
                    table_name: table_name@,
                    columns: cols_view(columns@),
                }) && s.wf(),
                Err(e) => !schema_wf(
                    SchemaV { table_name: table_name@, columns: cols_view(columns@) },
                ) && match e@ {
                    DbErrorV::ValidationEmptyTableName => table_name@.len() == 0,
                    DbErrorV::ValidationNoColumns { table } => table == table_name@
                        && columns@.len() == 0,
                    DbErrorV::ValidationDuplicateColumn { column } => exists|i: int, j: int|
                        0 <= i < j < columns@.len() && columns@[i]@.name == columns@[j]@.name
                            && columns@[j]@.name == column,
                    _ => false,
                },
            },
    {
        let ghost cv = cols_view(columns@);
        if table_name.as_str().is_empty() {
            return Err(DbError::ValidationEmptyTableName);
        }
        if columns.len() == 0 {
            return Err(DbError::ValidationNoColumns { table: table_name });
        }
        let mut j: usize = 0;
        while j < columns.len()
            invariant
                j <= columns.len(),
                cv == cols_view(columns@),
                forall|a: int, b: int| 0 <= a < b < j ==> cv[a].name != cv[b].name,
            decreases columns.len() - j,
        {
            let mut i: usize = 0;
            while i < j
                invariant
                    i <= j < columns.len(),
                    cv == cols_view(columns@),
                    forall|a: int| 0 <= a < i ==> cv[a].name != cv[j as int].name,
                decreases j - i,
            {
                if columns[i].name == columns[j].name {
                    let dup = columns[j].name.clone();
                    proof {
                        let gi = i as int;
                        let gj = j as int;
                        assert(cv[gi].name == cv[gj].name);
                        assert(exists|a: int, b: int|
                            0 <= a < b < columns@.len() && columns@[a]@.name == columns@[b]@.name
                                && columns@[b]@.name == dup@) by {
                            assert(0 <= gi < gj < columns@.len() && columns@[gi]@.name
                                == columns@[gj]@.name && columns@[gj]@.name == dup@);
                        }
                    }
                    return Err(DbError::ValidationDuplicateColumn { column: dup });
                }
                i = i + 1;
            }
            j = j + 1;
        }
        Ok(SchemaDescriptor { table_name, columns })
    }

    /// The table this schema describes.
    pub fn table_name(&self) -> (r: &String)
        ensures
            r@ == self@.table_name,
    {
        &self.table_name
    }

    /// The ordered column descriptors of this schema.
    pub fn columns(&self) -> (r: &Vec<ColumnDescriptor>)
        ensures
            cols_view(r@) == self@.columns,
    {
        &self.columns
    }

    /// How many columns the schema has.
    pub fn column_count(&self) -> (n: usize)
        ensures
            n == self@.columns.len(),
    {
        self.columns.len()
    }

    /// Name-based column lookup: the descriptor of the column named `name`,
    /// or `None` if the schema has no such column.
    pub fn column(&self, name: &String) -> (r: Option<&ColumnDescriptor>)
        ensures
            match r {
                Some(c) => lookup_col(self@.columns, name@) == Some(c@),
                None => !has_col(self@.columns, name@),
            },
    {
        let mut i: usize = 0;
        while i < self.columns.len()
            invariant
                i <= self.columns.len(),
                forall|a: int| 0 <= a < i ==> self@.columns[a].name != name@,
            decreases self.columns.len() - i,
        {
            if self.columns[i].name == *name {
                proof {
                    lemma_lookup_first_match(self@.columns, name@, i as int);
                }
                return Some(&self.columns[i]);
            }
            i = i + 1;
        }
        assert(!has_col(self@.columns, name@));
        None
    }

    /// An equal copy of this schema.
    pub fn duplicate(&self) -> (s: SchemaDescriptor)
        ensures
            s@ == self@,
    {
        let mut cols: Vec<ColumnDescriptor> = Vec::new();
        let mut i: usize = 0;
        while i < self.columns.len()
            invariant
                i <= self.columns.len(),
                cols@.len() == i,
                forall|k: int| 0 <= k < i ==> cols@[k]@ == self.columns@[k]@,
            decreases self.columns.len() - i,
        {
            cols.push(self.columns[i].duplicate());
            i = i + 1;
        }
        proof {
            assert(cols_view(cols@) =~= cols_view(self.columns@));
        }
        SchemaDescriptor { table_name: self.table_name.clone(), columns: cols }
    }
}

/// Looking up a name whose first occurrence in `cs` is at `i` yields `cs[i]`.
pub proof fn lemma_lookup_first_match(cs: Seq<ColumnV>, n: Seq<char>, i: int)
    requires
        0 <= i < cs.len(),
        cs[i].name == n,
        forall|a: int| 0 <= a < i ==> cs[a].name != n,
    ensures
        lookup_col(cs, n) == Some(cs[i]),
    decreases cs.len(),
{
    if i == 0 {
    } else {
        lemma_lookup_first_match(cs.drop_first(), n, i - 1);
    }
}

} // verus!
