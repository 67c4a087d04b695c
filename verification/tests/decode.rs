use rowstore::errors::DbError;
use rowstore::query::{Projection, decode_records};
use rowstore::schema::{ColumnDescriptor, SchemaDescriptor};
use rowstore::store::Record;
use rowstore::values::{LogicalType, Value};

fn point_schema() -> SchemaDescriptor {
    SchemaDescriptor::new(
        "points".to_string(),
        vec![
            ColumnDescriptor::new("x".to_string(), LogicalType::Signed, false),
            ColumnDescriptor::new("y".to_string(), LogicalType::Signed, false),
            ColumnDescriptor::new("tag".to_string(), LogicalType::Text, true),
        ],
    )
    .unwrap()
}

fn good_record() -> Record {
    let mut rec = Record::new();
    rec.push("x".to_string(), Value::Signed(-3));
    rec.push("y".to_string(), Value::Signed(14));
    rec.push("tag".to_string(), Value::Text("origin-ish".to_string()));
    rec
}

#[test]
fn decode_full_projection_of_well_formed_record() {
    let schema = point_schema();
    let proj = Projection::full(&schema);
    let rows = decode_records(&schema, &proj, &vec![good_record()]).unwrap();
    assert_eq!(rows.len(), 1);
    assert_eq!(rows[0].get(&"x".to_string()), Some(&Value::Signed(-3)));
    assert_eq!(rows[0].get(&"y".to_string()), Some(&Value::Signed(14)));
    assert_eq!(
        rows[0].get(&"tag".to_string()),
        Some(&Value::Text("origin-ish".to_string()))
    );
}

#[test]
fn decode_missing_column_fails_whole_call() {
    let schema = point_schema();
    let proj = Projection::full(&schema);
    let mut rec = Record::new();
    rec.push("x".to_string(), Value::Signed(1));
    let err = decode_records(&schema, &proj, &vec![good_record(), rec]).unwrap_err();
    assert_eq!(err, DbError::DecodeMissingColumn { column: "y".to_string() });
}

#[test]
fn decode_type_mismatch_names_offending_column() {
    let schema = point_schema();
    let proj = Projection::full(&schema);
    let mut rec = Record::new();
    rec.push("x".to_string(), Value::Signed(1));
    rec.push("y".to_string(), Value::Text("twelve".to_string()));
    rec.push("tag".to_string(), Value::Null);
    let err = decode_records(&schema, &proj, &vec![rec]).unwrap_err();
    assert_eq!(err, DbError::DecodeTypeMismatch { column: "y".to_string() });
}

#[test]
fn decode_null_in_non_nullable_column_is_a_mismatch() {
    let schema = point_schema();
    let proj = Projection::full(&schema);
    let mut rec = Record::new();
    rec.push("x".to_string(), Value::Null);
    rec.push("y".to_string(), Value::Signed(2));
    rec.push("tag".to_string(), Value::Null);
    let err = decode_records(&schema, &proj, &vec![rec]).unwrap_err();
    assert_eq!(err, DbError::DecodeTypeMismatch { column: "x".to_string() });
}

#[test]
fn decode_ignores_extra_record_fields() {
    let schema = point_schema();
    let proj = Projection::of_names(&schema, vec!["y".to_string()]).unwrap();
    let mut rec = good_record();
    rec.push("stray".to_string(), Value::Boolean(true));
    let rows = decode_records(&schema, &proj, &vec![rec]).unwrap();
    assert_eq!(rows.len(), 1);
    assert_eq!(rows[0].len(), 1);
    assert_eq!(rows[0].get(&"y".to_string()), Some(&Value::Signed(14)));
    assert_eq!(rows[0].get(&"x".to_string()), None);
    assert_eq!(rows[0].get(&"stray".to_string()), None);
}

#[test]
fn decode_nullable_column_accepts_null() {
    let schema = point_schema();
    let proj = Projection::of_names(&schema, vec!["tag".to_string()]).unwrap();
    let mut rec = Record::new();
    rec.push("x".to_string(), Value::Signed(0));
    rec.push("y".to_string(), Value::Signed(0));
    rec.push("tag".to_string(), Value::Null);
    let rows = decode_records(&schema, &proj, &vec![rec]).unwrap();
    assert_eq!(rows[0].get(&"tag".to_string()), Some(&Value::Null));
}

#[test]
fn projection_of_names_validates_and_keeps_order() {
    let schema = point_schema();
    let proj = Projection::of_names(&schema, vec!["y".to_string(), "x".to_string()]).unwrap();
    assert_eq!(proj.len(), 2);
    let copy = proj.duplicate();
    let rows = decode_records(&schema, &copy, &vec![good_record()]).unwrap();
    assert_eq!(rows[0].len(), 2);
    assert_eq!(rows[0].get(&"y".to_string()), Some(&Value::Signed(14)));
    let err = Projection::of_names(&schema, vec!["z".to_string()]).unwrap_err();
    assert_eq!(err, DbError::ValidationUnknownColumn { column: "z".to_string() });
    let err = Projection::of_names(&schema, vec!["x".to_string(), "x".to_string()]).unwrap_err();
    assert_eq!(err, DbError::ValidationDuplicateColumn { column: "x".to_string() });
}

#[test]
fn value_fits_follows_type_and_nullability() {
    assert!(Value::Unsigned(7).fits(LogicalType::Unsigned, false));
    assert!(!Value::Unsigned(7).fits(LogicalType::Signed, false));
    assert!(Value::Boolean(true).fits(LogicalType::Boolean, false));
    assert!(Value::Binary(vec![1, 2, 3]).fits(LogicalType::Binary, false));
    assert!(Value::Null.fits(LogicalType::Text, true));
    assert!(!Value::Null.fits(LogicalType::Text, false));
}
