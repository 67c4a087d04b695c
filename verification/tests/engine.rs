use rowstore::connection::Connection;
use rowstore::errors::DbError;
use rowstore::row::Row;
use rowstore::schema::{ColumnDescriptor, SchemaDescriptor};
use rowstore::store::Store;
use rowstore::values::{LogicalType, Value};

fn users_schema() -> SchemaDescriptor {
    SchemaDescriptor::new(
        "users".to_string(),
        vec![
            ColumnDescriptor::new("id".to_string(), LogicalType::Unsigned, false),
            ColumnDescriptor::new("name".to_string(), LogicalType::Text, false),
            ColumnDescriptor::new("email".to_string(), LogicalType::Text, false),
            ColumnDescriptor::new("password".to_string(), LogicalType::Text, false),
        ],
    )
    .unwrap()
}

fn john_doe() -> Row {
    let mut row = Row::new();
    row.set("id".to_string(), Value::Unsigned(1));
    row.set("name".to_string(), Value::Text("John Doe".to_string()));
    row.set("email".to_string(), Value::Text("john.doe@example.com".to_string()));
    row.set("password".to_string(), Value::Text("password".to_string()));
    row
}

fn open_users_connection() -> (Connection, SchemaDescriptor) {
    let schema = users_schema();
    let mut conn = Connection::connect("mem://users".to_string(), Store::new()).unwrap();
    conn.register_table(&schema).unwrap();
    (conn, schema)
}

#[test]
fn register_twice_creates_one_table() {
    let (mut conn, schema) = open_users_connection();
    assert_eq!(conn.table_count(), 1);
    conn.register_table(&schema).unwrap();
    assert_eq!(conn.table_count(), 1);
    assert!(conn.is_registered(&"users".to_string()));
}

#[test]
fn concurrent_style_double_register_then_empty_select() {
    let schema = users_schema();
    let mut conn = Connection::connect("mem://race".to_string(), Store::new()).unwrap();
    assert!(conn.register_table(&schema).is_ok());
    assert!(conn.register_table(&schema).is_ok());
    assert_eq!(conn.table_count(), 1);
    let q = conn.query(&schema);
    let rows = conn.execute_select(&q).unwrap();
    assert_eq!(rows.len(), 0);
}

#[test]
fn insert_then_full_select_round_trips() {
    let (mut conn, schema) = open_users_connection();
    let req = conn.insert(&schema, john_doe());
    conn.execute_insert(&req).unwrap();
    let q = conn.query(&schema);
    let rows = conn.execute_select(&q).unwrap();
    assert_eq!(rows.len(), 1);
    let row = &rows[0];
    assert_eq!(row.get(&"id".to_string()), Some(&Value::Unsigned(1)));
    assert_eq!(row.get(&"name".to_string()), Some(&Value::Text("John Doe".to_string())));
    assert_eq!(
        row.get(&"email".to_string()),
        Some(&Value::Text("john.doe@example.com".to_string()))
    );
    assert_eq!(
        row.get(&"password".to_string()),
        Some(&Value::Text("password".to_string()))
    );
}

#[test]
fn projected_select_reports_absence_for_unprojected_columns() {
    let (mut conn, schema) = open_users_connection();
    let req = conn.insert(&schema, john_doe());
    conn.execute_insert(&req).unwrap();
    let q = conn
        .query(&schema)
        .select(vec!["name".to_string(), "id".to_string()])
        .unwrap();
    let rows = conn.execute_select(&q).unwrap();
    assert_eq!(rows.len(), 1);
    let row = &rows[0];
    assert_eq!(row.len(), 2);
    assert_eq!(row.get(&"name".to_string()), Some(&Value::Text("John Doe".to_string())));
    assert_eq!(row.get(&"id".to_string()), Some(&Value::Unsigned(1)));
    assert_eq!(row.get(&"email".to_string()), None);
    assert_eq!(row.get(&"password".to_string()), None);
}

#[test]
fn users_scenario_select_name_only() {
    let (mut conn, schema) = open_users_connection();
    let req = conn.insert(&schema, john_doe());
    conn.execute_insert(&req).unwrap();
    let q = conn.query(&schema).select(vec!["name".to_string()]).unwrap();
    let rows = conn.execute_select(&q).unwrap();
    assert_eq!(rows.len(), 1);
    assert_eq!(
        rows[0].get(&"name".to_string()),
        Some(&Value::Text("John Doe".to_string()))
    );
    assert_eq!(rows[0].get(&"email".to_string()), None);
}

#[test]
fn select_preserves_insertion_order() {
    let (mut conn, schema) = open_users_connection();
    for (i, who) in ["a", "b", "c"].iter().enumerate() {
        let mut row = Row::new();
        row.set("id".to_string(), Value::Unsigned(i as u64));
        row.set("name".to_string(), Value::Text(who.to_string()));
        row.set("email".to_string(), Value::Text(format!("{}@example.com", who)));
        row.set("password".to_string(), Value::Text("pw".to_string()));
        let req = conn.insert(&schema, row);
        conn.execute_insert(&req).unwrap();
    }
    let q = conn.query(&schema).select(vec!["name".to_string()]).unwrap();
    let rows = conn.execute_select(&q).unwrap();
    assert_eq!(rows.len(), 3);
    assert_eq!(rows[0].get(&"name".to_string()), Some(&Value::Text("a".to_string())));
    assert_eq!(rows[1].get(&"name".to_string()), Some(&Value::Text("b".to_string())));
    assert_eq!(rows[2].get(&"name".to_string()), Some(&Value::Text("c".to_string())));
}

#[test]
fn query_builder_is_reusable() {
    let (mut conn, schema) = open_users_connection();
    let q = conn.query(&schema).select(vec!["id".to_string()]).unwrap();
    let first = conn.execute_select(&q).unwrap();
    assert_eq!(first.len(), 0);
    let req = conn.insert(&schema, john_doe());
    conn.execute_insert(&req).unwrap();
    let second = conn.execute_select(&q).unwrap();
    assert_eq!(second.len(), 1);
}

#[test]
fn staged_request_and_builder_execute_directly() {
    let (mut conn, schema) = open_users_connection();
    let req = conn.insert(&schema, john_doe());
    req.execute(&mut conn).unwrap();
    let q = conn.query(&schema).select(vec!["name".to_string()]).unwrap();
    let rows = q.execute(&mut conn).unwrap();
    assert_eq!(rows.len(), 1);
    assert_eq!(
        rows[0].get(&"name".to_string()),
        Some(&Value::Text("John Doe".to_string()))
    );
}

#[test]
fn connect_rejects_empty_target() {
    let (err, store) = Connection::connect(String::new(), Store::new()).unwrap_err();
    assert_eq!(err, DbError::ConnectionFailed { target: String::new() });
    assert_eq!(store.call_count(), 0);
}

#[test]
fn closed_connection_refuses_data_operations() {
    let (mut conn, schema) = open_users_connection();
    let released = conn.close();
    assert_eq!(released.table_count(), 1);
    assert!(released.has_table_named(&"users".to_string()));
    assert!(!released.has_table_named(&"orders".to_string()));
    assert_eq!(conn.register_table(&schema), Err(DbError::ConnectionClosed));
    let req = conn.insert(&schema, john_doe());
    assert_eq!(conn.execute_insert(&req), Err(DbError::ConnectionClosed));
    let q = conn.query(&schema);
    assert_eq!(conn.execute_select(&q), Err(DbError::ConnectionClosed));
}

#[test]
fn duplicated_row_inserts_independently() {
    let (mut conn, schema) = open_users_connection();
    let row = john_doe();
    let copy = row.duplicate();
    let req = conn.insert(&schema, row);
    conn.execute_insert(&req).unwrap();
    let req2 = conn.insert(&schema, copy);
    conn.execute_insert(&req2).unwrap();
    let q = conn.query(&schema).select(vec!["id".to_string()]).unwrap();
    let rows = conn.execute_select(&q).unwrap();
    assert_eq!(rows.len(), 2);
    assert_eq!(rows[0].get(&"id".to_string()), Some(&Value::Unsigned(1)));
    assert_eq!(rows[1].get(&"id".to_string()), Some(&Value::Unsigned(1)));
}

#[test]
fn released_store_keeps_data_across_connections() {
    let (mut conn, schema) = open_users_connection();
    let req = conn.insert(&schema, john_doe());
    conn.execute_insert(&req).unwrap();
    let released = conn.close();
    let mut conn2 = Connection::connect("mem://users".to_string(), released).unwrap();
    conn2.register_table(&schema).unwrap();
    let q = conn2.query(&schema).select(vec!["name".to_string()]).unwrap();
    let rows = conn2.execute_select(&q).unwrap();
    assert_eq!(rows.len(), 1);
    assert_eq!(
        rows[0].get(&"name".to_string()),
        Some(&Value::Text("John Doe".to_string()))
    );
}

#[test]
fn register_mismatched_schema_reports_offending_column() {
    let (mut conn, _schema) = open_users_connection();
    let other = SchemaDescriptor::new(
        "users".to_string(),
        vec![ColumnDescriptor::new("id".to_string(), LogicalType::Text, false)],
    )
    .unwrap();
    assert_eq!(
        conn.register_table(&other),
        Err(DbError::SchemaMismatch { table: "users".to_string(), column: "id".to_string() })
    );
    assert_eq!(conn.table_count(), 1);
}

#[test]
fn register_compatible_superset_is_accepted() {
    let (mut conn, _schema) = open_users_connection();
    let narrower = SchemaDescriptor::new(
        "users".to_string(),
        vec![
            ColumnDescriptor::new("id".to_string(), LogicalType::Unsigned, false),
            ColumnDescriptor::new("name".to_string(), LogicalType::Text, false),
        ],
    )
    .unwrap();
    assert!(conn.register_table(&narrower).is_ok());
    assert_eq!(conn.table_count(), 1);
}
