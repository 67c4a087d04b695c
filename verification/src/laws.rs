use vstd::prelude::*;

use crate::query::{
    col_names, decode_col_ok, decoded_record, entry_value_of, record_decodes, record_of,
    valid_projection,
};
use crate::row::{
    NamedValueV, col_covered, has_entry, lemma_lookup_entry_first_match, lemma_lookup_entry_props,
    lookup_entry, row_conforms,
};
use crate::schema::{ColumnV, distinct_col_names, lemma_lookup_col_at};
use crate::store::{
    TableV, cols_compat, col_present, ensure_ok, ensure_post, has_table, lemma_table_index_first,
    lemma_table_index_props, table_index,
};

verus! {

/// How many tables of `ts` are named `n`.
pub open spec fn tables_named(ts: Seq<TableV>, n: Seq<char>) -> nat
    decreases ts.len(),
{
    if ts.len() == 0 {
        0
    } else {
        (if ts[0].name == n {
            1nat
        } else {
            0nat
        }) + tables_named(ts.drop_first(), n)
    }
}

/// A name is absent exactly when no table carries it.
pub proof fn lemma_tables_named_absent(ts: Seq<TableV>, n: Seq<char>)
    ensures
        has_table(ts, n) <==> tables_named(ts, n) > 0,
    decreases ts.len(),
{
    if ts.len() == 0 {
    } else if ts[0].name == n {
    } else {
        lemma_tables_named_absent(ts.drop_first(), n);
    }
}

/// Appending one table adds one to the tally of its own name and nothing
/// to any other.
pub proof fn lemma_tables_named_push(ts: Seq<TableV>, n: Seq<char>, t: TableV)
    ensures
        tables_named(ts.push(t), n) == tables_named(ts, n) + (if t.name == n {
            1nat
        } else {
            0nat
        }),
    decreases ts.len(),
{
    if ts.len() == 0 {
        assert(ts.push(t)[0] == t);
        assert(ts.push(t).drop_first() =~= Seq::<TableV>::empty());
        assert(tables_named(ts.push(t).drop_first(), n) == 0);
        assert(tables_named(ts, n) == 0);
    } else {
        assert(ts.push(t)[0] == ts[0]);
        assert(ts.push(t).drop_first() =~= ts.drop_first().push(t));
        lemma_tables_named_push(ts.drop_first(), n, t);
        assert(tables_named(ts.push(t).drop_first(), n) == tables_named(
            ts.drop_first().push(t),
            n,
        ));
    }
}

/// Any set of columns is compatible with itself.
pub proof fn lemma_compat_refl(cols: Seq<ColumnV>)
    ensures
        cols_compat(cols, cols),
{
    assert forall|i: int| 0 <= i < cols.len() implies col_present(cols, #[trigger] cols[i]) by {
        assert(0 <= i < cols.len() && cols[i].name == cols[i].name && cols[i].logical_type
            == cols[i].logical_type);
    }
}

/// Registration is idempotent: when an "ensure table" request succeeds on
/// a store, a second request with the same name and columns succeeds as
/// well and changes nothing, and where the table was absent, exactly one
/// table of that name now exists — freshly created, with the requested
/// columns and no rows.
pub proof fn lemma_register_idempotent(ts: Seq<TableV>, n: Seq<char>, cols: Seq<ColumnV>)
    requires
        ensure_ok(ts, n, cols),
    ensures
        ({
            let ts1 = ensure_post(ts, n, cols);
            &&& ensure_ok(ts1, n, cols)
            &&& ensure_post(ts1, n, cols) == ts1
            &&& has_table(ts1, n)
            &&& !has_table(ts, n) ==> tables_named(ts1, n) == 1 && ts1[table_index(ts1, n)]
                == (TableV { name: n, columns: cols, rows: Seq::empty() })
            &&& has_table(ts, n) ==> ts1 == ts
        }),
{
    if has_table(ts, n) {
    } else {
        let t = TableV { name: n, columns: cols, rows: Seq::empty() };
        let ts1 = ts.push(t);
        assert(ensure_post(ts, n, cols) == ts1);
        lemma_table_index_props(ts, n);
        assert(forall|a: int| 0 <= a < ts.len() ==> (#[trigger] ts1[a]).name != n) by {
            assert(forall|a: int| 0 <= a < ts.len() ==> ts1[a] == ts[a]);
            if exists|a: int| 0 <= a < ts.len() && (#[trigger] ts[a]).name == n {
                assert(has_table(ts, n));
            }
        }
        assert(ts1[ts.len() as int] == t);
        lemma_table_index_first(ts1, n, ts.len() as int);
        assert(has_table(ts1, n));
        lemma_compat_refl(cols);
        assert(cols_compat(cols, ts1[table_index(ts1, n)].columns));
        lemma_tables_named_absent(ts, n);
        assert(tables_named(ts, n) == 0);
        lemma_tables_named_push(ts, n, t);
    }
}

/// Round trip: a row that conforms to distinct-named columns is written as
/// a record that decodes under the full projection, and every column of
/// the decoded result carries exactly the value the row held.
pub proof fn lemma_insert_select_round_trip(cols: Seq<ColumnV>, row: Seq<NamedValueV>)
    requires
        distinct_col_names(cols),
        row_conforms(row, cols),
    ensures
        record_decodes(cols, col_names(cols), record_of(cols, row)),
        forall|i: int|
            0 <= i < cols.len() ==> lookup_entry(
                decoded_record(col_names(cols), record_of(cols, row)),
                (#[trigger] cols[i]).name,
            ) == lookup_entry(row, cols[i].name),
{
    let proj = col_names(cols);
    let rec = record_of(cols, row);
    let dec = decoded_record(proj, rec);
    assert(forall|i: int| 0 <= i < rec.len() ==> (#[trigger] rec[i]).name == cols[i].name);
    assert(forall|i: int| 0 <= i < dec.len() ==> (#[trigger] dec[i]).name == cols[i].name);
    assert forall|i: int| 0 <= i < cols.len() implies #[trigger] lookup_entry(
        rec,
        cols[i].name,
    ) == Some(rec[i].value) by {
        assert(forall|a: int| 0 <= a < i ==> (#[trigger] rec[a]).name != cols[i].name);
        lemma_lookup_entry_first_match(rec, cols[i].name, i);
    }
    assert forall|i: int| 0 <= i < cols.len() implies #[trigger] lookup_entry(
        dec,
        cols[i].name,
    ) == Some(dec[i].value) by {
        assert(forall|a: int| 0 <= a < i ==> (#[trigger] dec[a]).name != cols[i].name);
        lemma_lookup_entry_first_match(dec, cols[i].name, i);
    }
    assert forall|pi: int| 0 <= pi < proj.len() implies decode_col_ok(
        cols,
        rec,
        #[trigger] proj[pi],
    ) by {
        lemma_lookup_col_at(cols, pi);
        assert(col_covered(row, cols[pi]));
        assert(rec[pi].value == entry_value_of(row, cols[pi].name));
        assert(lookup_entry(rec, cols[pi].name) == Some(rec[pi].value));
    }
    assert forall|i: int| 0 <= i < cols.len() implies lookup_entry(
        dec,
        (#[trigger] cols[i]).name,
    ) == lookup_entry(row, cols[i].name) by {
        assert(col_covered(row, cols[i]));
        assert(dec[i].value == entry_value_of(rec, proj[i]));
        assert(lookup_entry(rec, cols[i].name) == Some(rec[i].value));
        assert(rec[i].value == entry_value_of(row, cols[i].name));
        assert(lookup_entry(dec, cols[i].name) == Some(dec[i].value));
        assert(lookup_entry(row, cols[i].name) == Some(entry_value_of(row, cols[i].name)));
    }
}

/// Projected access: in a decoded record, lookup succeeds on exactly the
/// projected names — every column of the projection is found, and every
/// other name (in particular every column projected out) reports absence.
pub proof fn lemma_projection_get_coverage(
    cols: Seq<ColumnV>,
    proj: Seq<Seq<char>>,
    rec: Seq<NamedValueV>,
)
    requires
        valid_projection(proj, cols),
    ensures
        forall|n: Seq<char>|
            #[trigger] lookup_entry(decoded_record(proj, rec), n) is Some <==> proj.contains(n),
{
    let dec = decoded_record(proj, rec);
    assert forall|n: Seq<char>|
        #[trigger] lookup_entry(dec, n) is Some <==> proj.contains(n) by {
        lemma_lookup_entry_props(dec, n);
        if proj.contains(n) {
            let i = choose|i: int| 0 <= i < proj.len() && proj[i] == n;
            assert(dec[i].name == n);
            assert(has_entry(dec, n));
        }
        if has_entry(dec, n) {
            let i = choose|i: int| 0 <= i < dec.len() && dec[i].name == n;
            assert(proj[i] == n);
            assert(proj.contains(n));
        }
    }
}

} // verus!
