//! Validation of arrays against logical types: the data type first, then the
//! nulls that valid rows can reach, at every non-`Option` level.

use quiver_types::layout::validate;
use quiver_types::slicing::slice_layout;
use quiver_types::wellformed::array_is_ok;
use quiver_types::{
    AnyBinary, AnyList, AnyUtf8, ArrayLayout, ColumnError, DataType, Dictionary, Dyn, Field,
    FixedSizeList, IgnoreValidity, Logical, LogicalType, MapOf, Nanosecond, Run, TimeUnit, Timestamp,
    TypedArray, Utc, Utf8,
};

fn leaf(data_type: DataType, validity: Option<Vec<bool>>, len: usize) -> ArrayLayout {
    ArrayLayout {
        data_type,
        len,
        validity,
        offsets: Vec::new(),
        sizes: Vec::new(),
        offset: 0,
        children: Vec::new(),
    }
}

fn field(name: &str, data_type: DataType, nullable: bool) -> Field {
    Field::new(name.to_owned(), data_type, nullable)
}

fn list(item: Field, validity: Option<Vec<bool>>, offsets: Vec<usize>, child: ArrayLayout) -> ArrayLayout {
    ArrayLayout {
        data_type: DataType::List(Box::new(item)),
        len: offsets.len() - 1,
        validity,
        offsets,
        sizes: Vec::new(),
        offset: 0,
        children: vec![child],
    }
}

fn check<L: LogicalType>(layout: ArrayLayout) -> Result<(), ColumnError> {
    assert!(array_is_ok(&layout), "the layout is well-formed");
    TypedArray::<L>::try_new(layout).map(|_| ())
}

fn null_count(result: Result<(), ColumnError>) -> usize {
    match result {
        Err(ColumnError::UnexpectedNulls { null_count }) => null_count,
        other => panic!("expected unexpected nulls, got {other:?}"),
    }
}

fn is_wrong_data_type(result: &Result<(), ColumnError>) -> bool {
    matches!(result, Err(ColumnError::WrongDataType { .. }))
}

#[test]
fn wrong_data_type_names_the_supported_and_actual_types() {
    match check::<Utf8>(leaf(DataType::Int64, None, 2)) {
        Err(ColumnError::WrongDataType { supported, actual }) => {
            assert_eq!(supported.len(), 1);
            assert!(matches!(supported[0], DataType::Utf8));
            assert!(matches!(actual, DataType::Int64));
        }
        other => panic!("expected a wrong data type, got {other:?}"),
    }
}

#[test]
fn the_data_type_is_checked_before_the_nulls() {
    let result = check::<Utf8>(leaf(DataType::Int64, Some(vec![true, false]), 2));
    assert!(is_wrong_data_type(&result));
}

#[test]
fn nulls_at_a_non_nullable_level_are_rejected() {
    let validity = Some(vec![true, false, true, false]);
    assert_eq!(null_count(check::<i64>(leaf(DataType::Int64, validity.clone(), 4))), 2);
    assert!(check::<Option<i64>>(leaf(DataType::Int64, validity.clone(), 4)).is_ok());
    // `IgnoreValidity` reads through the mask.
    assert!(check::<IgnoreValidity<i64>>(leaf(DataType::Int64, validity, 4)).is_ok());
}

#[test]
fn list_items_are_checked_at_their_own_level() {
    // [[1, null], [3]]: the null item is reachable.
    let items = leaf(DataType::Int64, Some(vec![true, false, true]), 3);
    let layout = list(field("item", DataType::Int64, true), None, vec![0, 2, 3], items);
    assert_eq!(null_count(check::<quiver_types::List<i64>>(layout)), 1);

    let items = leaf(DataType::Int64, Some(vec![true, false, true]), 3);
    let layout = list(field("item", DataType::Int64, true), None, vec![0, 2, 3], items);
    assert!(check::<quiver_types::List<Option<i64>>>(layout).is_ok());
}

#[test]
fn nulls_under_a_null_row_are_unreachable() {
    // Row 0 is null and its range holds a null item; row 1 is fine.
    let items = leaf(DataType::Int64, Some(vec![false, true]), 2);
    let layout = list(field("item", DataType::Int64, true), Some(vec![false, true]), vec![0, 1, 2], items);
    assert!(check::<Option<quiver_types::List<i64>>>(layout).is_ok());
}

#[test]
fn nulls_outside_a_sliced_window_are_unreachable() {
    let items = leaf(DataType::Int64, Some(vec![false, true, true]), 3);
    let layout = list(field("item", DataType::Int64, false), None, vec![0, 1, 2, 3], items);
    assert_eq!(null_count(check::<quiver_types::List<i64>>(layout.duplicate())), 1);
    let sliced = slice_layout(&layout, 1, 2);
    assert_eq!(sliced.offsets, vec![1, 2, 3]);
    assert!(check::<quiver_types::List<i64>>(sliced).is_ok());
}

#[test]
fn inner_field_names_and_flags_are_ignored() {
    let items = leaf(DataType::Utf8, None, 1);
    let layout = list(field("element", DataType::Utf8, true), None, vec![0, 1], items);
    assert!(check::<quiver_types::List<Utf8>>(layout).is_ok());
    let items = leaf(DataType::Int64, None, 1);
    let layout = list(field("item", DataType::Int64, false), None, vec![0, 1], items);
    assert!(is_wrong_data_type(&check::<quiver_types::List<Utf8>>(layout)));
}

#[test]
fn children_are_checked_before_the_rows() {
    // A null row, and a null item in a valid row: the item is reported.
    let items = leaf(DataType::Int64, Some(vec![true, false, true]), 3);
    let layout = list(field("item", DataType::Int64, true), Some(vec![true, true, false]), vec![0, 2, 3, 3], items);
    assert_eq!(null_count(check::<quiver_types::List<i64>>(layout)), 1);
    // With the items fine, the null row is reported.
    let items = leaf(DataType::Int64, None, 3);
    let layout = list(field("item", DataType::Int64, true), Some(vec![true, true, false]), vec![0, 2, 3, 3], items);
    assert_eq!(null_count(check::<quiver_types::List<i64>>(layout)), 1);
}

#[test]
fn fixed_size_lists_check_their_size() {
    let layout = ArrayLayout {
        data_type: DataType::FixedSizeList(Box::new(field("item", DataType::Int64, false)), 2),
        len: 2,
        validity: None,
        offsets: Vec::new(),
        sizes: Vec::new(),
        offset: 0,
        children: vec![leaf(DataType::Int64, None, 4)],
    };
    assert!(check::<FixedSizeList<i64, 2>>(layout.duplicate()).is_ok());
    assert!(is_wrong_data_type(&check::<FixedSizeList<i64, 3>>(layout)));
}

#[test]
fn fixed_size_list_items_of_null_rows_are_unreachable() {
    // Row 1 is null; its two placeholder items are null.
    let layout = ArrayLayout {
        data_type: DataType::FixedSizeList(Box::new(field("item", DataType::Int64, true)), 2),
        len: 2,
        validity: Some(vec![true, false]),
        offsets: Vec::new(),
        sizes: Vec::new(),
        offset: 0,
        children: vec![leaf(DataType::Int64, Some(vec![true, true, false, false]), 4)],
    };
    assert!(check::<Option<FixedSizeList<i64, 2>>>(layout).is_ok());
}

#[test]
fn timezones_are_matched_exactly() {
    let utc = leaf(DataType::Timestamp(TimeUnit::Nanosecond, Some("UTC".to_owned())), None, 1);
    assert!(check::<Timestamp<Nanosecond, Utc>>(utc).is_ok());
    let offset = leaf(DataType::Timestamp(TimeUnit::Nanosecond, Some("+00:00".to_owned())), None, 1);
    assert!(is_wrong_data_type(&check::<Timestamp<Nanosecond, Utc>>(offset)));
    let naive = leaf(DataType::Timestamp(TimeUnit::Nanosecond, None), None, 1);
    assert!(check::<Timestamp<Nanosecond>>(naive).is_ok());
}

fn dictionary(keys: Vec<usize>, key_validity: Option<Vec<bool>>, values: ArrayLayout) -> ArrayLayout {
    ArrayLayout {
        data_type: DataType::Dictionary(Box::new(DataType::Int32), Box::new(DataType::Utf8)),
        len: keys.len(),
        validity: key_validity,
        offsets: keys,
        sizes: Vec::new(),
        offset: 0,
        children: vec![values],
    }
}

#[test]
fn unreferenced_dictionary_nulls_are_fine() {
    // The value table ["x", null, "z"]; no key points at entry 1.
    let values = leaf(DataType::Utf8, Some(vec![true, false, true]), 3);
    assert!(check::<Dictionary<i32, Utf8>>(dictionary(vec![0, 2, 0], None, values)).is_ok());
}

#[test]
fn referenced_dictionary_nulls_are_counted_per_row() {
    let values = leaf(DataType::Utf8, Some(vec![true, false, true]), 3);
    assert_eq!(null_count(check::<Dictionary<i32, Utf8>>(dictionary(vec![1, 2, 1], None, values))), 2);
    // A null key is a null row, not a referenced null entry.
    let values = leaf(DataType::Utf8, Some(vec![true, false, true]), 3);
    let layout = dictionary(vec![1, 2, 0], Some(vec![false, true, true]), values);
    assert!(check::<Option<Dictionary<i32, Utf8>>>(layout).is_ok());
}

fn run(run_ends: Vec<usize>, offset: usize, len: usize, values: ArrayLayout) -> ArrayLayout {
    ArrayLayout {
        data_type: DataType::RunEndEncoded(
            Box::new(field("run_ends", DataType::Int32, false)),
            Box::new(field("values", DataType::Utf8, true)),
        ),
        len,
        validity: None,
        offsets: run_ends,
        sizes: Vec::new(),
        offset,
        children: vec![values],
    }
}

#[test]
fn run_nulls_count_once_per_position() {
    // Runs: positions 0..2 -> "a", 2..5 -> null.
    let values = leaf(DataType::Utf8, Some(vec![true, false]), 2);
    assert_eq!(null_count(check::<Run<i32, Utf8>>(run(vec![2, 5], 0, 5, values))), 3);
    // The window 0..2 reaches only the valid run.
    let values = leaf(DataType::Utf8, Some(vec![true, false]), 2);
    assert!(check::<Run<i32, Utf8>>(run(vec![2, 5], 0, 2, values)).is_ok());
    // The window 1..4 reaches two null positions.
    let values = leaf(DataType::Utf8, Some(vec![true, false]), 2);
    assert_eq!(null_count(check::<Run<i32, Utf8>>(run(vec![2, 5], 1, 3, values))), 2);
    let values = leaf(DataType::Utf8, Some(vec![true, false]), 2);
    assert!(check::<Run<i32, Option<Utf8>>>(run(vec![2, 5], 0, 5, values)).is_ok());
}

fn map(offsets: Vec<usize>, keys: ArrayLayout, values: ArrayLayout) -> ArrayLayout {
    let entries = field(
        "entries",
        DataType::Struct(vec![field("keys", DataType::Utf8, false), field("values", DataType::Int64, true)]),
        false,
    );
    ArrayLayout {
        data_type: DataType::MapOf(Box::new(entries), false),
        len: offsets.len() - 1,
        validity: None,
        offsets,
        sizes: Vec::new(),
        offset: 0,
        children: vec![keys, values],
    }
}

#[test]
fn map_values_are_checked() {
    let layout = map(vec![0, 2, 3], leaf(DataType::Utf8, None, 3), leaf(DataType::Int64, Some(vec![true, false, true]), 3));
    assert_eq!(null_count(check::<MapOf<Utf8, i64>>(layout)), 1);
    let layout = map(vec![0, 2, 3], leaf(DataType::Utf8, None, 3), leaf(DataType::Int64, Some(vec![true, false, true]), 3));
    assert!(check::<MapOf<Utf8, Option<i64>>>(layout).is_ok());
    let layout = map(vec![0, 2, 3], leaf(DataType::Utf8, None, 3), leaf(DataType::Int64, None, 3));
    assert!(is_wrong_data_type(&check::<MapOf<Utf8, Utf8>>(layout)));
}

#[test]
fn multi_encoding_types_accept_each_encoding() {
    assert!(check::<AnyUtf8>(leaf(DataType::LargeUtf8, None, 1)).is_ok());
    assert!(check::<AnyUtf8>(leaf(DataType::Utf8View, None, 1)).is_ok());
    assert!(is_wrong_data_type(&check::<AnyUtf8>(leaf(DataType::Binary, None, 1))));
    assert!(check::<AnyBinary>(leaf(DataType::FixedSizeBinary(16), None, 1)).is_ok());
    let view = ArrayLayout {
        data_type: DataType::ListView(Box::new(field("item", DataType::Int64, true))),
        len: 2,
        validity: None,
        offsets: vec![1, 0],
        sizes: vec![1, 1],
        offset: 0,
        children: vec![leaf(DataType::Int64, None, 2)],
    };
    assert!(check::<AnyList<i64>>(view).is_ok());
    match check::<AnyList<i64>>(leaf(DataType::Int64, None, 1)) {
        Err(ColumnError::WrongDataType { supported, .. }) => assert_eq!(supported.len(), 4),
        other => panic!("expected a wrong data type, got {other:?}"),
    }
}

#[test]
fn dyn_accepts_any_data_type() {
    assert!(check::<Dyn>(leaf(DataType::Unsupported("Decimal128(10, 2)".to_owned()), None, 1)).is_ok());
    assert_eq!(null_count(check::<Dyn>(leaf(DataType::Int64, Some(vec![false]), 1))), 1);
}

#[test]
fn validate_on_a_logical_value() {
    let l = Logical::Nullable(Box::new(Logical::Utf8));
    assert!(validate(&l, &leaf(DataType::Utf8, Some(vec![false]), 1)).is_ok());
    assert!(validate(&Logical::Utf8, &leaf(DataType::Utf8, Some(vec![false]), 1)).is_err());
}

#[test]
fn a_slice_of_a_valid_array_is_valid() {
    let items = leaf(DataType::Int64, None, 4);
    let layout = list(field("item", DataType::Int64, false), Some(vec![true, false, true]), vec![0, 2, 2, 4], items);
    let array = TypedArray::<Option<quiver_types::List<i64>>>::try_new(layout).expect("valid");
    let sliced = array.slice(1, 2);
    assert_eq!(sliced.len(), 2);
    assert!(sliced.is_null(0));
    assert!(!sliced.is_null(1));
    assert_eq!(sliced.layout().offsets, vec![2, 2, 4]);
    // The slice re-validates the same way.
    assert!(TypedArray::<Option<quiver_types::List<i64>>>::try_new(sliced.into_layout()).is_ok());
}

#[test]
fn run_rows_read_the_value_of_their_run() {
    let values = leaf(DataType::Utf8, Some(vec![true, false]), 2);
    let array = TypedArray::<Run<i32, Option<Utf8>>>::try_new(run(vec![2, 5], 0, 5, values)).expect("valid");
    let nulls: Vec<bool> = (0..5).map(|i| array.is_null(i)).collect();
    assert_eq!(nulls, [false, false, true, true, true]);
    let positions: Vec<usize> = (0..5).map(|i| array.value_position(i)).collect();
    assert_eq!(positions, [0, 0, 1, 1, 1]);
    let sliced = array.slice(1, 2);
    assert_eq!(sliced.value_position(0), 0);
    assert_eq!(sliced.value_position(1), 1);
}

#[test]
fn ill_formed_layouts_are_caught() {
    // Offsets past the child's end.
    let items = leaf(DataType::Int64, None, 1);
    assert!(!array_is_ok(&list(field("item", DataType::Int64, false), None, vec![0, 2], items)));
    // A validity buffer of the wrong length.
    assert!(!array_is_ok(&leaf(DataType::Int64, Some(vec![true]), 2)));
    // Run ends that do not increase.
    let values = leaf(DataType::Utf8, None, 2);
    assert!(!array_is_ok(&run(vec![2, 2], 0, 2, values)));
    // A child whose data type differs from its field's.
    let items = leaf(DataType::Utf8, None, 1);
    assert!(!array_is_ok(&list(field("item", DataType::Int64, false), None, vec![0, 1], items)));
}

#[test]
fn nullability_conversions_keep_the_layout() {
    let array = TypedArray::<Utf8>::try_new(leaf(DataType::Utf8, None, 2)).expect("valid");
    let optional: TypedArray<Option<Utf8>> = array.into_optional();
    assert_eq!(optional.len(), 2);
    let required: TypedArray<Utf8> = optional.try_into_required().expect("no nulls");
    assert_eq!(required.len(), 2);

    let array = TypedArray::<Option<Utf8>>::try_new(leaf(DataType::Utf8, Some(vec![true, false, false]), 3))
        .expect("valid");
    match array.try_into_required() {
        Err(ColumnError::UnexpectedNulls { null_count }) => assert_eq!(null_count, 2),
        other => panic!("expected unexpected nulls, got {other:?}"),
    }
}

#[test]
fn items_of_valid_rows_are_never_null() {
    // Row 1 is null and its only item is null; every item of a valid row is valid.
    let items = leaf(DataType::Utf8, Some(vec![true, true, false, true]), 4);
    let layout = list(field("item", DataType::Utf8, false), Some(vec![true, false, true]), vec![0, 2, 3, 4], items);
    let array = TypedArray::<Option<quiver_types::List<Utf8>>>::try_new(layout).expect("valid");
    let child_validity = array.layout().children[0].validity.clone().expect("a validity buffer");
    for row in 0..array.len() {
        if array.is_null(row) {
            continue;
        }
        let mut items = array.list_value(row);
        while let Some(position) = items.next() {
            assert!(child_validity[position], "row {row}, item {position}");
        }
    }
}

#[test]
fn compatibility_is_an_equivalence() {
    let a = DataType::List(Box::new(field("item", DataType::Utf8, true)));
    let b = DataType::List(Box::new(field("element", DataType::Utf8, false)));
    let c = DataType::List(Box::new(field("x", DataType::Utf8, true)));
    assert!(quiver_types::datatypes_compatible(&a, &a));
    assert!(quiver_types::datatypes_compatible(&a, &b) && quiver_types::datatypes_compatible(&b, &a));
    assert!(quiver_types::datatypes_compatible(&b, &c) && quiver_types::datatypes_compatible(&a, &c));
}
