//! Logical types: the values the markers denote, the data types they declare
//! and accept, and structural compatibility.

use quiver_types::data_type::data_type_eq;
use quiver_types::logical::{accepts, data_type_of, supported_data_types};
use quiver_types::{
    datatypes_compatible, AnyList, ConcreteType, DataType, Dictionary, Duration, Field, FixedSizeBinary,
    FixedSizeList, IgnoreValidity, LargeList, Logical, LogicalType, MapOf, Millisecond, Nanosecond, Run,
    TimeUnit, Timestamp, Utc, Utf8,
};

fn item(data_type: DataType, nullable: bool) -> Box<Field> {
    Box::new(Field::new("item".to_owned(), data_type, nullable))
}

#[test]
fn markers_denote_logical_values() {
    assert!(matches!(<Option<i64> as LogicalType>::logical(), Logical::Nullable(inner) if matches!(*inner, Logical::Int64)));
    assert!(matches!(
        <FixedSizeList<Utf8, 3> as LogicalType>::logical(),
        Logical::FixedSizeList(inner, 3) if matches!(*inner, Logical::Utf8)
    ));
    assert!(matches!(
        <Timestamp<Nanosecond, Utc> as LogicalType>::logical(),
        Logical::Timestamp(TimeUnit::Nanosecond, Some("UTC"))
    ));
    assert!(matches!(<Duration<Millisecond> as LogicalType>::logical(), Logical::Duration(TimeUnit::Millisecond)));
}

#[test]
fn nullability_comes_from_option_only() {
    assert!(<Option<Utf8> as LogicalType>::nullable());
    assert!(!<Utf8 as LogicalType>::nullable());
    assert!(!<quiver_types::List<Option<Utf8>> as LogicalType>::nullable());
    // `IgnoreValidity` declares what its inner type declares.
    assert!(!<IgnoreValidity<i64> as LogicalType>::nullable());
    assert!(<IgnoreValidity<Option<i64>> as LogicalType>::nullable());
}

#[test]
fn concrete_types_declare_their_data_type() {
    assert!(matches!(<FixedSizeBinary<16> as ConcreteType>::data_type(), DataType::FixedSizeBinary(16)));
    match <MapOf<Utf8, Option<i64>> as ConcreteType>::data_type() {
        DataType::MapOf(entries, sorted) => {
            assert!(!sorted);
            assert_eq!(entries.name, "entries");
            assert!(!entries.nullable);
            match &entries.data_type {
                DataType::Struct(fields) => {
                    assert_eq!(fields.len(), 2);
                    assert_eq!(fields[0].name, "keys");
                    assert!(!fields[0].nullable);
                    assert_eq!(fields[1].name, "values");
                    assert!(fields[1].nullable);
                }
                other => panic!("expected a struct, got {other:?}"),
            }
        }
        other => panic!("expected a map, got {other:?}"),
    }
    match <Run<i16, Option<Utf8>> as ConcreteType>::data_type() {
        DataType::RunEndEncoded(run_ends, values) => {
            assert_eq!(run_ends.name, "run_ends");
            assert!(matches!(run_ends.data_type, DataType::Int16));
            assert!(values.nullable);
        }
        other => panic!("expected run-end encoding, got {other:?}"),
    }
    assert!(matches!(
        <Dictionary<i32, Utf8> as ConcreteType>::data_type(),
        DataType::Dictionary(k, v) if matches!(*k, DataType::Int32) && matches!(*v, DataType::Utf8)
    ));
    // `Dyn` declares the placeholder `Null`.
    assert!(matches!(<quiver_types::Dyn as ConcreteType>::data_type(), DataType::Null));
}

#[test]
fn a_concrete_type_accepts_its_own_data_type() {
    let declared = <LargeList<Option<Utf8>> as ConcreteType>::data_type();
    assert!(<LargeList<Option<Utf8>> as LogicalType>::matches(&declared));
    assert!(<LargeList<Utf8> as LogicalType>::matches(&declared));
    assert!(!<quiver_types::List<Utf8> as LogicalType>::matches(&declared));
}

#[test]
fn compatibility_ignores_inner_field_names_and_flags() {
    let a = DataType::List(item(DataType::Utf8, true));
    let b = DataType::List(Box::new(Field::new("element".to_owned(), DataType::Utf8, false)));
    assert!(datatypes_compatible(&a, &b));
    assert!(!data_type_eq(&a, &b));
    assert!(!datatypes_compatible(&a, &DataType::List(item(DataType::Int64, true))));
    assert!(!datatypes_compatible(&a, &DataType::LargeList(item(DataType::Utf8, true))));
    // Fixed sizes must agree.
    assert!(datatypes_compatible(
        &DataType::FixedSizeList(item(DataType::Int8, true), 3),
        &DataType::FixedSizeList(item(DataType::Int8, false), 3)
    ));
    assert!(!datatypes_compatible(
        &DataType::FixedSizeList(item(DataType::Int8, true), 3),
        &DataType::FixedSizeList(item(DataType::Int8, true), 4)
    ));
    // Timezones are compared exactly.
    assert!(!datatypes_compatible(
        &DataType::Timestamp(TimeUnit::Second, Some("UTC".to_owned())),
        &DataType::Timestamp(TimeUnit::Second, Some("+00:00".to_owned()))
    ));
    // Dictionaries compare key and value types structurally.
    assert!(datatypes_compatible(
        &DataType::Dictionary(Box::new(DataType::Int8), Box::new(DataType::List(item(DataType::Utf8, true)))),
        &DataType::Dictionary(Box::new(DataType::Int8), Box::new(DataType::List(item(DataType::Utf8, false))))
    ));
}

#[test]
fn field_metadata_is_a_map() {
    let mut a = Field::new("x".to_owned(), DataType::Int64, false);
    let mut b = Field::new("x".to_owned(), DataType::Int64, false);
    a.metadata = vec![("k".to_owned(), "1".to_owned()), ("k".to_owned(), "2".to_owned())];
    b.metadata = vec![("k".to_owned(), "2".to_owned())];
    assert!(data_type_eq(&DataType::List(Box::new(a.duplicate())), &DataType::List(Box::new(b.duplicate()))));
    b.metadata = vec![("k".to_owned(), "1".to_owned())];
    assert!(!data_type_eq(&DataType::List(Box::new(a)), &DataType::List(Box::new(b))));
}

#[test]
fn the_supported_data_types_name_each_encoding() {
    let supported = <AnyList<i64> as LogicalType>::supported_data_types();
    assert_eq!(supported.len(), 4);
    assert!(matches!(supported[0], DataType::List(_)));
    assert!(matches!(supported[1], DataType::LargeList(_)));
    assert!(matches!(supported[2], DataType::ListView(_)));
    assert!(matches!(supported[3], DataType::LargeListView(_)));
    assert_eq!(<quiver_types::AnyUtf8 as LogicalType>::supported_data_types().len(), 3);
    assert_eq!(<Option<Utf8> as LogicalType>::supported_data_types().len(), 1);
    // A parse-only item type names no list type.
    assert!(supported_data_types(&Logical::AnyList(Box::new(Logical::AnyUtf8))).is_empty());
}

#[test]
fn logical_values_convert_and_accept() {
    let l = Logical::List(Box::new(Logical::Nullable(Box::new(Logical::Utf8))));
    let declared = data_type_of(&l);
    assert!(accepts(&l, &declared));
    assert!(l.is_concrete());
    assert!(l.is_infallible());
    assert!(!Logical::Dictionary(Box::new(Logical::Int8), Box::new(Logical::Utf8)).is_infallible());
    assert!(!Logical::AnyUtf8.is_concrete());
    assert!(!Logical::Dictionary(Box::new(Logical::Utf8), Box::new(Logical::Utf8)).is_concrete());
    assert!(l.rejects_nulls());
    assert!(!Logical::IgnoreValidity(Box::new(Logical::Int8)).rejects_nulls());
}
