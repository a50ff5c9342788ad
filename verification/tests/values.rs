use arrow::array::Array;
use quiver_types::{FixedSizeList, MapOf, Nanosecond, NoTimezone, Timestamp, Utc, Utf8, ValueArray};

#[test]
fn int64_values_read_back() {
    let array = ValueArray::<i64>::from_values(vec![3, -1, 7]);
    assert_eq!(array.len(), 3);
    assert_eq!(array.value(1), -1);
    assert_eq!(array.to_vec(), vec![3, -1, 7]);
    assert_eq!(array.as_arrow().array.null_count(), 0);
    assert_eq!(array.as_arrow().array.data_type(), &arrow::datatypes::DataType::Int64);
}

#[test]
fn utf8_values_read_back() {
    let names = ValueArray::<Utf8>::from_values(vec!["Alice".to_string(), "Bob".to_string()]);
    assert_eq!(names.value(1), "Bob");
    assert_eq!(names.to_vec(), vec!["Alice".to_string(), "Bob".to_string()]);
    assert!(!names.is_null(0));
}

#[test]
fn empty_values() {
    let array = ValueArray::<i64>::from_values(Vec::new());
    assert!(array.is_empty());
    assert_eq!(array.to_vec(), Vec::<i64>::new());
}

#[test]
fn nullable_values_read_back() {
    let array = ValueArray::<Option<Utf8>>::from_nullable_values(vec![Some("a".to_string()), None]);
    assert_eq!(array.to_vec(), vec![Some("a".to_string()), None]);
    assert!(array.is_null(1));
    assert_eq!(array.as_arrow().array.null_count(), 1);

    let numbers = ValueArray::<Option<i64>>::from_nullable_values(vec![None, Some(5)]);
    assert_eq!(numbers.value(0), None);
    assert_eq!(numbers.value(1), Some(5));
}

#[test]
fn new_null_is_all_null() {
    let array = ValueArray::<Option<Utf8>>::new_null(3);
    assert_eq!(array.to_vec(), vec![None, None, None]);
    assert_eq!(array.as_arrow().array.null_count(), 3);
}

#[test]
fn fixed_size_list_read_back() {
    let rows = vec![Some(vec![1, 2]), None, Some(vec![3, 4])];
    let array = ValueArray::<Option<FixedSizeList<i64, 2>>>::from_nullable_values(rows);
    assert_eq!(array.len(), 3);
    assert_eq!(array.value(0), Some(vec![1, 2]));
    assert_eq!(array.value(1), None);
    assert_eq!(array.value(2), Some(vec![3, 4]));
    let arrow = &array.as_arrow().array;
    assert_eq!(arrow.len(), 3);
    assert_eq!(arrow.null_count(), 1);
    match arrow.data_type() {
        arrow::datatypes::DataType::FixedSizeList(field, 2) => {
            assert_eq!(field.name(), "item");
            assert!(field.is_nullable());
            assert_eq!(field.data_type(), &arrow::datatypes::DataType::Int64);
        }
        other => panic!("unexpected data type {other:?}"),
    }
}

#[test]
fn fixed_size_list_of_strings() {
    let rows = vec![Some(vec!["x".to_string()]), Some(vec!["y".to_string()])];
    let array = ValueArray::<Option<FixedSizeList<Utf8, 1>>>::from_nullable_values(rows);
    assert_eq!(array.value(1), Some(vec!["y".to_string()]));
    assert_eq!(array.as_arrow().array.null_count(), 0);
}

#[test]
fn map_read_back_keeps_duplicates() {
    let rows = vec![
        Some(vec![("a".to_string(), 1), ("a".to_string(), 2)]),
        None,
        Some(vec![]),
        Some(vec![("b".to_string(), 3)]),
    ];
    let array = ValueArray::<Option<MapOf<Utf8, i64>>>::from_nullable_values(rows);
    assert_eq!(array.len(), 4);
    assert_eq!(array.value(0), Some(vec![("a".to_string(), 1), ("a".to_string(), 2)]));
    assert_eq!(array.value(1), None);
    assert_eq!(array.value(2), Some(vec![]));
    assert_eq!(array.value(3), Some(vec![("b".to_string(), 3)]));
    let arrow = &array.as_arrow().array;
    assert_eq!(arrow.null_count(), 1);
    let map = arrow::array::AsArray::as_map(arrow.as_ref());
    assert_eq!(map.keys().len(), 3);
    assert_eq!(map.value_offsets(), &[0, 2, 2, 2, 3]);
}

#[test]
fn built_arrays_validate_as_their_type() {
    let array = ValueArray::<Option<MapOf<i64, i64>>>::from_nullable_values(vec![Some(vec![(1, 10)])]);
    let layout = quiver_types::TypedArray::<MapOf<i64, i64>>::try_new(array.typed().layout().duplicate());
    assert!(layout.is_ok());
}

#[test]
fn descriptor_builds_its_column() {
    let desc = quiver_types::ColumnDesc::<i64>::new_with_metadata("Reading", "value", &[("unit", "m"), ("unit", "km")]);
    let (array, column) = desc.new_from_values(vec![4, 5]);
    assert_eq!(array.to_vec(), vec![4, 5]);
    assert_eq!(column.len(), 2);
    assert_eq!(column.metadata, vec![("unit".to_string(), "km".to_string())]);

    let (nulls, column) = desc.new_null(2);
    assert_eq!(nulls.to_vec(), vec![None, None]);
    assert_eq!(column.len(), 2);
    assert_eq!(column.metadata, vec![("unit".to_string(), "km".to_string())]);
}

#[test]
fn column_metadata_keeps_each_key_once() {
    let array = ValueArray::<Utf8>::from_values(vec!["x".to_string()]);
    let column = array.to_column(vec![
        ("a".to_string(), "1".to_string()),
        ("b".to_string(), "2".to_string()),
        ("a".to_string(), "3".to_string()),
    ]);
    assert_eq!(column.metadata, vec![("b".to_string(), "2".to_string()), ("a".to_string(), "3".to_string())]);
}

#[test]
fn other_integer_values_read_back() {
    let small = ValueArray::<Option<i32>>::from_nullable_values(vec![Some(-7), None, Some(i32::MAX)]);
    assert_eq!(small.to_vec(), vec![Some(-7), None, Some(i32::MAX)]);
    assert_eq!(small.as_arrow().array.data_type(), &arrow::datatypes::DataType::Int32);

    let large = ValueArray::<u64>::from_values(vec![u64::MAX, 0]);
    assert_eq!(large.value(0), u64::MAX);
    assert_eq!(large.as_arrow().array.data_type(), &arrow::datatypes::DataType::UInt64);

    let map = ValueArray::<Option<MapOf<i32, u64>>>::from_nullable_values(vec![Some(vec![(1, 2)]), None]);
    assert_eq!(map.value(0), Some(vec![(1, 2)]));
    assert_eq!(map.value(1), None);
}

#[test]
fn exact_data_types() {
    assert!(matches!(quiver_types::Column::<i64>::datatype(), quiver_types::DataType::Int64));
    match quiver_types::TypedArray::<Option<FixedSizeList<Utf8, 3>>>::datatype() {
        quiver_types::DataType::FixedSizeList(item, 3) => {
            assert!(matches!(item.data_type, quiver_types::DataType::Utf8));
            assert_eq!(item.name, "item");
        }
        other => panic!("unexpected data type {other:?}"),
    }
}

#[test]
fn fixed_size_binary_from_buffer() {
    let array = ValueArray::<quiver_types::FixedSizeBinary<2>>::from_buffer(vec![1, 2, 3, 4, 5, 6]).unwrap();
    assert_eq!(array.len(), 3);
    assert_eq!(array.value(1), vec![3, 4]);
    assert_eq!(array.as_arrow().array.data_type(), &arrow::datatypes::DataType::FixedSizeBinary(2));

    let partial = ValueArray::<quiver_types::FixedSizeBinary<4>>::from_buffer(vec![1, 2, 3, 4, 5]);
    assert!(matches!(partial, Err(quiver_types::BuildError::PartialElement { bytes: 5, width: 4 })));
}

#[test]
fn list_read_back() {
    let rows = vec![Some(vec!["a".to_string(), "b".to_string()]), None, Some(vec![])];
    let array = ValueArray::<Option<quiver_types::List<Utf8>>>::from_nullable_values(rows);
    assert_eq!(array.value(0), Some(vec!["a".to_string(), "b".to_string()]));
    assert_eq!(array.value(1), None);
    assert_eq!(array.value(2), Some(vec![]));
    let arrow = &array.as_arrow().array;
    assert_eq!(arrow.null_count(), 1);
    let list = arrow::array::AsArray::as_list::<i32>(arrow.as_ref());
    assert_eq!(list.value_offsets(), &[0, 2, 2, 2]);
}

#[test]
fn nested_lists_read_back() {
    let rows = vec![Some(vec![vec![1, 2], vec![]]), None, Some(vec![vec![3], vec![4, 5]])];
    let array = ValueArray::<Option<FixedSizeList<quiver_types::List<i64>, 2>>>::from_nullable_values(rows.clone());
    assert_eq!(array.to_vec(), rows);

    let rows = vec![Some(vec![vec![1, 2], vec![3, 4]]), Some(vec![]), None];
    let array = ValueArray::<Option<quiver_types::List<FixedSizeList<i64, 2>>>>::from_nullable_values(rows.clone());
    assert_eq!(array.to_vec(), rows);

    let rows = vec![Some(vec![vec![1, 2], vec![3, 4]]), None];
    let array = ValueArray::<Option<FixedSizeList<FixedSizeList<i64, 2>, 2>>>::from_nullable_values(rows.clone());
    assert_eq!(array.to_vec(), rows);
    assert_eq!(array.as_arrow().array.len(), 2);
}

#[test]
fn map_of_lists_read_back() {
    let rows = vec![
        Some(vec![("a".to_string(), vec![1, 2]), ("a".to_string(), vec![])]),
        None,
        Some(vec![("b".to_string(), vec![3])]),
    ];
    let array = ValueArray::<Option<MapOf<Utf8, quiver_types::List<i64>>>>::from_nullable_values(rows.clone());
    assert_eq!(array.to_vec(), rows);
    let required = ValueArray::<MapOf<i64, Utf8>>::from_values(vec![vec![(1, "x".to_string())], vec![]]);
    assert_eq!(required.value(0), vec![(1, "x".to_string())]);
    assert_eq!(required.value(1), vec![]);
}

#[test]
fn binary_values_read_back() {
    let array = ValueArray::<quiver_types::Binary>::from_values(vec![b"k".to_vec(), vec![]]);
    assert_eq!(array.to_vec(), vec![b"k".to_vec(), vec![]]);
    let large = ValueArray::<Option<quiver_types::LargeBinary>>::from_nullable_values(vec![None, Some(b"abc".to_vec())]);
    assert_eq!(large.to_vec(), vec![None, Some(b"abc".to_vec())]);
    assert_eq!(large.as_arrow().array.data_type(), &arrow::datatypes::DataType::LargeBinary);
}

#[test]
fn any_binary_reads_every_binary_encoding() {
    let large = ValueArray::<quiver_types::LargeBinary>::from_values(vec![b"abc".to_vec()]);
    let any = large.try_as::<quiver_types::AnyBinary>().unwrap();
    assert_eq!(any.value(0), b"abc".to_vec());

    let fixed = ValueArray::<quiver_types::FixedSizeBinary<2>>::from_buffer(vec![7, 8]).unwrap();
    let any = fixed.try_as::<quiver_types::AnyBinary>().unwrap();
    assert_eq!(any.value(0), vec![7, 8]);

    let nullable = ValueArray::<Option<quiver_types::Binary>>::from_nullable_values(vec![Some(b"k".to_vec()), None]);
    let any = nullable.try_as::<Option<quiver_types::AnyBinary>>().unwrap();
    assert_eq!(any.value(0), Some(b"k".to_vec()));
    assert_eq!(any.value(1), None);

    let numbers = ValueArray::<i64>::from_values(vec![1]);
    assert!(matches!(
        numbers.try_as::<quiver_types::AnyBinary>(),
        Err(quiver_types::ColumnError::WrongDataType { .. })
    ));
}

#[test]
fn required_type_rejects_a_nullable_binary_column() {
    let nullable = ValueArray::<Option<quiver_types::Binary>>::from_nullable_values(vec![Some(b"k".to_vec()), None]);
    assert!(matches!(
        nullable.try_as::<quiver_types::Binary>(),
        Err(quiver_types::ColumnError::UnexpectedNulls { null_count: 1 })
    ));
    let desc = quiver_types::ColumnDesc::<quiver_types::Binary>::new("Manifest", "chunk_key");
    let (nulls, column) = desc.new_null(3);
    assert_eq!(nulls.to_vec(), vec![None, None, None]);
    assert_eq!(column.len(), 3);
}

#[test]
fn ignore_validity_reads_every_slot() {
    let array = ValueArray::<Option<i64>>::from_nullable_values(vec![Some(1), None, Some(3)]);
    let ignoring = array.try_as::<quiver_types::IgnoreValidity<i64>>().unwrap();
    assert_eq!(ignoring.value(0), 1);
    assert_eq!(ignoring.to_vec(), vec![1, 0, 3]);
}

#[test]
fn descriptor_columns_carry_the_name_into_a_dynamic_column() {
    let chunk_key = quiver_types::ColumnDesc::<quiver_types::Binary>::new("Manifest", "chunk_key");
    let (nulls, column) = chunk_key.new_null(3);
    assert_eq!(nulls.to_vec(), vec![None, None, None]);
    let dyn_column = column.into_dyn(chunk_key.name_owned());
    assert_eq!(dyn_column.name(), "chunk_key");
    assert!(dyn_column.field().nullable);

    let sensor = quiver_types::ColumnDesc::<Utf8>::new("Measurements", "sensor");
    let (values, column) = sensor.new_from_values(vec!["kitchen".to_string(), "attic".to_string()]);
    assert_eq!(values.to_vec(), vec!["kitchen".to_string(), "attic".to_string()]);
    assert!(column.metadata.is_empty());
    let dyn_column = column.into_dyn(sensor.name_owned());
    assert_eq!(dyn_column.name(), "sensor");
    assert!(!dyn_column.field().nullable);
}

#[test]
fn nullable_items_read_back() {
    let rows = vec![Some(vec![Some(1), None]), None, Some(vec![])];
    let list = ValueArray::<Option<quiver_types::List<Option<i64>>>>::from_nullable_values(rows.clone());
    assert_eq!(list.to_vec(), rows);
    let field = match list.as_arrow().array.data_type() {
        arrow::datatypes::DataType::List(field) => field.clone(),
        other => panic!("unexpected data type {other:?}"),
    };
    assert!(field.is_nullable());

    let rows = vec![Some(vec![None, Some("x".to_string())]), None];
    let fixed = ValueArray::<Option<FixedSizeList<Option<Utf8>, 2>>>::from_nullable_values(rows.clone());
    assert_eq!(fixed.to_vec(), rows);

    let rows = vec![Some(vec![("a".to_string(), Some(1)), ("b".to_string(), None)]), None];
    let map = ValueArray::<Option<MapOf<Utf8, Option<i64>>>>::from_nullable_values(rows.clone());
    assert_eq!(map.to_vec(), rows);
}

#[test]
fn timestamps_and_dates_read_back() {
    let utc = ValueArray::<Timestamp<Nanosecond, Utc>>::from_values(vec![1]);
    assert_eq!(utc.value(0), 1);
    match utc.as_arrow().array.data_type() {
        arrow::datatypes::DataType::Timestamp(arrow::datatypes::TimeUnit::Nanosecond, Some(tz)) => {
            assert_eq!(tz.as_ref(), "UTC")
        }
        other => panic!("unexpected data type {other:?}"),
    }
    // Timezones are compared as exact strings.
    let naive = ValueArray::<Timestamp<Nanosecond, NoTimezone>>::from_values(vec![1]);
    assert!(naive.try_as::<Timestamp<Nanosecond, Utc>>().is_err());

    let days = ValueArray::<Option<quiver_types::Date32>>::from_nullable_values(vec![Some(19000), None]);
    assert_eq!(days.to_vec(), vec![Some(19000), None]);
    assert_eq!(days.slice(1, 1).to_vec(), vec![None]);
    let millis = ValueArray::<quiver_types::Date64>::from_values(vec![86_400_000]);
    assert_eq!(millis.value(0), 86_400_000);
}
