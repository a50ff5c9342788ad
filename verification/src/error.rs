//! What can go wrong when validating or building columns.

use vstd::prelude::*;

use crate::data_type::{DataType, DataTypeSpec};

verus! {

/// Why building an array failed.
#[derive(Debug)]
pub enum BuildError {
    /// A byte buffer that is not a whole number of fixed-width elements.
    PartialElement { bytes: usize, width: usize },
    /// An error reported by arrow while assembling the array, as its message.
    Arrow { message: String },
}

/// What can go wrong when constructing a column.
///
/// Does not know which column it concerns — see [`ColumnError::for_column`].
#[derive(Debug)]
pub enum ColumnError {
    /// The array's data type is not one the logical type accepts.
    WrongDataType {
        /// The data type(s) the logical type accepts.
        supported: Vec<DataType>,
        actual: DataType,
    },
    /// Nulls at a level the logical type declares non-nullable.
    UnexpectedNulls { null_count: usize },
    /// A fallible domain conversion rejected a value, with its message.
    Conversion { message: String },
    /// Building the array failed.
    Build(BuildError),
}

/// What went wrong when converting between a record batch and a record type.
#[derive(Debug)]
pub enum ErrorKind {
    MissingColumn { column: String },
    WrongDataType { column: String, supported: Vec<DataType>, actual: DataType },
    UnexpectedColumn { column: String },
    UnexpectedNulls { column: String, null_count: usize },
    WrongArrayType {
        column: String,
        /// Name of the expected array type, e.g. `ListArray`.
        expected: String,
        actual: DataType,
    },
    Conversion { column: String, message: String },
    BuildRecordBatch(BuildError),
}

/// An error from converting between a record batch and a record type: the
/// name of the record type, and what went wrong.
#[derive(Debug)]
pub struct Error {
    /// The name of the record type that was converted to or from.
    pub record_type: &'static str,
    pub kind: Box<ErrorKind>,
}

impl Error {
    /// Boxes `kind`.
    pub fn new(record_type: &'static str, kind: ErrorKind) -> (e: Error)
        ensures
            e.record_type == record_type,
            *e.kind == kind,
    {
        Error { record_type, kind: Box::new(kind) }
    }
}

impl ColumnError {
    /// Attaches the column name, producing an [`ErrorKind`].
    pub fn for_column(self, column: String) -> (k: ErrorKind)
        ensures
            match (self, k) {
                (
                    ColumnError::WrongDataType { supported: s1, actual: a1 },
                    ErrorKind::WrongDataType { column: c, supported: s2, actual: a2 },
                ) => c == column && s1 == s2 && a1 == a2,
                (
                    ColumnError::UnexpectedNulls { null_count: n1 },
                    ErrorKind::UnexpectedNulls { column: c, null_count: n2 },
                ) => c == column && n1 == n2,
                (
                    ColumnError::Conversion { message: m1 },
                    ErrorKind::Conversion { column: c, message: m2 },
                ) => c == column && m1 == m2,
                (ColumnError::Build(b1), ErrorKind::BuildRecordBatch(b2)) => b1 == b2,
                _ => false,
            },
    {
        match self {
            ColumnError::WrongDataType { supported, actual } => ErrorKind::WrongDataType {
                column,
                supported,
                actual,
            },
            ColumnError::UnexpectedNulls { null_count } => ErrorKind::UnexpectedNulls {
                column,
                null_count,
            },
            ColumnError::Conversion { message } => ErrorKind::Conversion { column, message },
            ColumnError::Build(err) => ErrorKind::BuildRecordBatch(err),
        }
    }
}

/// The views of a list of data types.
pub open spec fn data_types_view(v: Seq<DataType>) -> Seq<DataTypeSpec> {
    v.map_values(|d: DataType| d@)
}

} // verus!
