use rowstore::connection::Connection;
use rowstore::errors::DbError;
use rowstore::row::Row;
use rowstore::schema::{ColumnDescriptor, SchemaDescriptor};
use rowstore::store::Store;
use rowstore::values::{LogicalType, Value};

fn users_columns() -> Vec<ColumnDescriptor> {
    vec![
        ColumnDescriptor::new("id".to_string(), LogicalType::Unsigned, false),
        ColumnDescriptor::new("name".to_string(), LogicalType::Text, false),
        ColumnDescriptor::new("email".to_string(), LogicalType::Text, false),
        ColumnDescriptor::new("password".to_string(), LogicalType::Text, false),
    ]
}

fn ready_connection() -> (Connection, SchemaDescriptor) {
    let schema = SchemaDescriptor::new("users".to_string(), users_columns()).unwrap();
    let mut conn = Connection::connect("mem://users".to_string(), Store::new()).unwrap();
    conn.register_table(&schema).unwrap();
    (conn, schema)
}

#[test]
fn schema_rejects_empty_table_name() {
    assert_eq!(
        SchemaDescriptor::new(String::new(), users_columns()).unwrap_err(),
        DbError::ValidationEmptyTableName
    );
}

#[test]
fn schema_rejects_zero_columns() {
    assert_eq!(
        SchemaDescriptor::new("users".to_string(), Vec::new()).unwrap_err(),
        DbError::ValidationNoColumns { table: "users".to_string() }
    );
}

#[test]
fn schema_rejects_duplicate_column_names() {
    let cols = vec![
        ColumnDescriptor::new("id".to_string(), LogicalType::Unsigned, false),
        ColumnDescriptor::new("id".to_string(), LogicalType::Text, false),
    ];
    assert_eq!(
        SchemaDescriptor::new("users".to_string(), cols).unwrap_err(),
        DbError::ValidationDuplicateColumn { column: "id".to_string() }
    );
}

#[test]
fn schema_column_lookup_by_name() {
    let schema = SchemaDescriptor::new("users".to_string(), users_columns()).unwrap();
    let c = schema.column(&"email".to_string()).unwrap();
    assert_eq!(c.name, "email".to_string());
    assert_eq!(c.logical_type, LogicalType::Text);
    assert!(!c.nullable);
    assert!(schema.column(&"missing".to_string()).is_none());
}

#[test]
fn projection_with_unknown_column_fails_without_store_call() {
    let (mut conn, schema) = ready_connection();
    let calls_before = conn.store_calls();
    let err = conn
        .query(&schema)
        .select(vec!["name".to_string(), "nonexistent_column".to_string()])
        .unwrap_err();
    assert_eq!(
        err,
        DbError::ValidationUnknownColumn { column: "nonexistent_column".to_string() }
    );
    assert_eq!(conn.store_calls(), calls_before);
}

#[test]
fn nonexistent_column_scenario_names_the_column() {
    let (mut conn, schema) = ready_connection();
    let calls_before = conn.store_calls();
    let err = conn
        .query(&schema)
        .select(vec!["nonexistent_column".to_string()])
        .unwrap_err();
    assert_eq!(
        err,
        DbError::ValidationUnknownColumn { column: "nonexistent_column".to_string() }
    );
    assert_eq!(conn.store_calls(), calls_before);
}

#[test]
fn projection_with_duplicate_column_fails() {
    let (mut conn, schema) = ready_connection();
    let err = conn
        .query(&schema)
        .select(vec!["name".to_string(), "name".to_string()])
        .unwrap_err();
    assert_eq!(err, DbError::ValidationDuplicateColumn { column: "name".to_string() });
}

#[test]
fn insert_missing_required_column_fails_before_any_store_call() {
    let (mut conn, schema) = ready_connection();
    let mut row = Row::new();
    row.set("id".to_string(), Value::Unsigned(1));
    row.set("name".to_string(), Value::Text("John Doe".to_string()));
    row.set("password".to_string(), Value::Text("password".to_string()));
    let calls_before = conn.store_calls();
    let req = conn.insert(&schema, row);
    assert_eq!(
        conn.execute_insert(&req),
        Err(DbError::ValidationMissingColumn { column: "email".to_string() })
    );
    assert_eq!(conn.store_calls(), calls_before);
    let q = conn.query(&schema);
    assert_eq!(conn.execute_select(&q).unwrap().len(), 0);
}

#[test]
fn insert_mistyped_column_fails_before_any_store_call() {
    let (mut conn, schema) = ready_connection();
    let mut row = Row::new();
    row.set("id".to_string(), Value::Text("not a number".to_string()));
    row.set("name".to_string(), Value::Text("John Doe".to_string()));
    row.set("email".to_string(), Value::Text("john.doe@example.com".to_string()));
    row.set("password".to_string(), Value::Text("password".to_string()));
    let calls_before = conn.store_calls();
    let req = conn.insert(&schema, row);
    assert_eq!(
        conn.execute_insert(&req),
        Err(DbError::ValidationTypeMismatch { column: "id".to_string() })
    );
    assert_eq!(conn.store_calls(), calls_before);
}

#[test]
fn insert_unknown_column_fails() {
    let (mut conn, schema) = ready_connection();
    let mut row = Row::new();
    row.set("id".to_string(), Value::Unsigned(1));
    row.set("name".to_string(), Value::Text("John Doe".to_string()));
    row.set("email".to_string(), Value::Text("john.doe@example.com".to_string()));
    row.set("password".to_string(), Value::Text("password".to_string()));
    row.set("age".to_string(), Value::Unsigned(42));
    let req = conn.insert(&schema, row);
    assert_eq!(
        conn.execute_insert(&req),
        Err(DbError::ValidationUnknownColumn { column: "age".to_string() })
    );
}

#[test]
fn null_fits_only_nullable_columns() {
    let schema = SchemaDescriptor::new(
        "notes".to_string(),
        vec![
            ColumnDescriptor::new("id".to_string(), LogicalType::Unsigned, false),
            ColumnDescriptor::new("body".to_string(), LogicalType::Text, true),
        ],
    )
    .unwrap();
    let mut conn = Connection::connect("mem://notes".to_string(), Store::new()).unwrap();
    conn.register_table(&schema).unwrap();

    let mut ok_row = Row::new();
    ok_row.set("id".to_string(), Value::Unsigned(1));
    ok_row.set("body".to_string(), Value::Null);
    let req = conn.insert(&schema, ok_row);
    assert!(conn.execute_insert(&req).is_ok());

    let mut bad_row = Row::new();
    bad_row.set("id".to_string(), Value::Null);
    bad_row.set("body".to_string(), Value::Text("hello".to_string()));
    let req = conn.insert(&schema, bad_row);
    assert_eq!(
        conn.execute_insert(&req),
        Err(DbError::ValidationTypeMismatch { column: "id".to_string() })
    );
}

#[test]
fn row_set_replaces_earlier_value() {
    let mut row = Row::new();
    row.set("name".to_string(), Value::Text("first".to_string()));
    row.set("name".to_string(), Value::Text("second".to_string()));
    assert_eq!(row.len(), 1);
    assert_eq!(row.get(&"name".to_string()), Some(&Value::Text("second".to_string())));
    assert_eq!(row.get(&"missing".to_string()), None);
}

#[test]
fn insert_into_unregistered_table_is_a_store_error() {
    let schema = SchemaDescriptor::new("users".to_string(), users_columns()).unwrap();
    let mut conn = Connection::connect("mem://empty".to_string(), Store::new()).unwrap();
    let mut row = Row::new();
    row.set("id".to_string(), Value::Unsigned(1));
    row.set("name".to_string(), Value::Text("John Doe".to_string()));
    row.set("email".to_string(), Value::Text("john.doe@example.com".to_string()));
    row.set("password".to_string(), Value::Text("password".to_string()));
    let req = conn.insert(&schema, row);
    assert_eq!(
        conn.execute_insert(&req),
        Err(DbError::StoreMissingTable { table: "users".to_string() })
    );
}
