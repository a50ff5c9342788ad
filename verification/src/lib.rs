//! Strongly typed, validated columns of arrow record batches.
//!
//! A logical column type (`Utf8`, `List<Option<i64>>`, `Dictionary<i32,
//! Utf8>`, …) says which arrow data types a column may have and at which
//! nesting levels it may hold nulls. An array is validated against it once,
//! when it is taken in: its data type first (structurally, so that inner
//! field names, nullability flags and metadata do not matter), then the nulls
//! at every level the type declares non-nullable — counting only the nulls a
//! valid row can actually reach. After that, reading never fails.
//!
//! The library works on the *layout* of an array, held as plain values
//! ([`ArrayLayout`]): its data type, its length, the validity of its rows,
//! the offsets, keys, or run ends that map its rows to its children, and the
//! children themselves.
//!
//! * [`markers`]: the logical types as Rust types, and [`Logical`], the
//!   value each one denotes.
//! * [`data_type`]: arrow data types and fields, and structural compatibility.
//! * [`layout`], [`nulls`]: array layouts, their validation, and the count of
//!   reachable nulls.
//! * [`typed_array`], [`column`], [`dyn_column`]: validated arrays and
//!   columns, extraction from a record batch by name, and reading.
//! * [`column_desc`]: column descriptors.
//! * [`slicing`]: windows on the rows of an array.
//! * [`builder`]: the layouts of nested columns built from values.
//! * [`cursor`]: iteration over rows, list items, and map entries.
//! * [`arrow_arrays`]: the calls into arrow that build arrays and read their
//!   slots, with what they hold stated over the array's layout and contents.
//! * [`buildable`], [`nested_build`], [`nullable_items`]: the logical types
//!   whose arrays can be built from values and read back — leaves, lists,
//!   fixed-size lists and maps of them, with or without null items.
//! * [`value_array`]: arrow arrays built from values, kept with their
//!   validated layouts, read back, and read through other logical types.
//! * [`wellformed`]: checking a layout against what arrow guarantees.

pub mod arrow_arrays;
pub mod builder;
pub mod column;
pub mod column_desc;
pub mod cursor;
pub mod data_type;
pub mod dyn_column;
pub mod error;
pub mod layout;
pub mod logical;
pub mod markers;
pub mod metadata;
pub mod nulls;
pub mod properties;
pub mod slicing;
pub mod typed_array;
pub mod value_array;
pub mod buildable;
pub mod nested_build;
pub mod nullable_items;
pub mod wellformed;

pub use column::{BatchColumn, BatchLayout, Column};
pub use column_desc::{ColumnDesc, DynColumnDesc};
pub use cursor::{ListValue, MapValue, TypedArrayIter};
pub use data_type::{datatypes_compatible, DataType, Field, TimeUnit};
pub use dyn_column::DynColumn;
pub use error::{BuildError, ColumnError, Error, ErrorKind};
pub use layout::ArrayLayout;
pub use logical::Logical;
pub use markers::{
    AnyBinary, AnyList, AnyUtf8, As, Binary, BinaryView, ConcreteType, Date32, Date64, Dictionary,
    DictionaryKey, Duration, DurationMicrosecond, DurationMillisecond, DurationNanosecond, DurationSecond,
    Dyn, FixedSizeBinary, FixedSizeList, IgnoreValidity, InfallibleBuild, LargeBinary, LargeList,
    LargeListView, LargeUtf8, List, ListView, LogicalType, MapOf, Microsecond, Millisecond, Nanosecond,
    NoTimezone, PrimitiveType, RefType, Run, RunEndType, Second, Time32Millisecond, Time32Second,
    Time64Microsecond, Time64Nanosecond, TimeUnitSpec, Timestamp, TimestampMicrosecond,
    TimestampMillisecond, TimestampNanosecond, TimestampSecond, TimezoneSpec, Transparent, Utc, Utf8,
    Utf8View,
};
pub use typed_array::TypedArray;
pub use buildable::{Buildable, Flat};
pub use value_array::ValueArray;
pub use arrow_arrays::ArrowArray;
