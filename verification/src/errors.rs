use vstd::prelude::*;

verus! {

/// Mathematical model of an engine error: the same shape as [`DbError`],
/// with every name carried as a sequence of characters.
pub enum DbErrorV {
    /// The connection target was malformed or unreachable.
    ConnectionFailed { target: Seq<char> },
    /// A data operation was attempted on a closed connection.
    ConnectionClosed,
    /// The physical table exists but lacks a column (or its type) that the
    /// schema requires.
    SchemaMismatch { table: Seq<char>, column: Seq<char> },
    /// A schema was defined with an empty table name.
    ValidationEmptyTableName,
    /// A schema was defined with no columns at all.
    ValidationNoColumns { table: Seq<char> },
    /// A schema or projection names the same column twice.
    ValidationDuplicateColumn { column: Seq<char> },
    /// A row or projection names a column absent from the schema.
    ValidationUnknownColumn { column: Seq<char> },
    /// A row is missing a value for a schema column.
    ValidationMissingColumn { column: Seq<char> },
    /// A row holds a value whose type does not fit its column.
    ValidationTypeMismatch { column: Seq<char> },
    /// The store holds no table of the given name.
    StoreMissingTable { table: Seq<char> },
    /// A raw record from the store lacks a projected column.
    DecodeMissingColumn { column: Seq<char> },
    /// A raw record holds a value that cannot be coerced to its column's type.
    DecodeTypeMismatch { column: Seq<char> },
}

/// Every failure the engine reports; each variant names the table or column
/// that triggered it.
///
/// `Validation*` errors are raised before any store call; `SchemaMismatch`
/// and `StoreMissingTable` come from the store itself; `Decode*` errors mean
/// a raw record disagrees with the schema it was read under.
#[derive(Debug, PartialEq, Eq)]
pub enum DbError {
    ConnectionFailed { target: String },
    ConnectionClosed,
    SchemaMismatch { table: String, column: String },
    ValidationEmptyTableName,
    ValidationNoColumns { table: String },
    ValidationDuplicateColumn { column: String },
    ValidationUnknownColumn { column: String },
    ValidationMissingColumn { column: String },
    ValidationTypeMismatch { column: String },
    StoreMissingTable { table: String },
    DecodeMissingColumn { column: String },
    DecodeTypeMismatch { column: String },
}

impl View for DbError {
    type V = DbErrorV;

    open spec fn view(&self) -> DbErrorV {
        match self {
            DbError::ConnectionFailed { target } => DbErrorV::ConnectionFailed { target: target@ },
            DbError::ConnectionClosed => DbErrorV::ConnectionClosed,
            DbError::SchemaMismatch { table, column } => DbErrorV::SchemaMismatch {
                table: table@,
                column: column@,
            },
            DbError::ValidationEmptyTableName => DbErrorV::ValidationEmptyTableName,
            DbError::ValidationNoColumns { table } => DbErrorV::ValidationNoColumns {
                table: table@,
            },
            DbError::ValidationDuplicateColumn { column } => DbErrorV::ValidationDuplicateColumn {
                column: column@,
            },
            DbError::ValidationUnknownColumn { column } => DbErrorV::ValidationUnknownColumn {
                column: column@,
            },
            DbError::ValidationMissingColumn { column } => DbErrorV::ValidationMissingColumn {
                column: column@,
            },
            DbError::ValidationTypeMismatch { column } => DbErrorV::ValidationTypeMismatch {
                column: column@,
            },
            DbError::StoreMissingTable { table } => DbErrorV::StoreMissingTable { table: table@ },
            DbError::DecodeMissingColumn { column } => DbErrorV::DecodeMissingColumn {
                column: column@,
            },
            DbError::DecodeTypeMismatch { column } => DbErrorV::DecodeTypeMismatch {
                column: column@,
            },
        }
    }
}

} // verus!
