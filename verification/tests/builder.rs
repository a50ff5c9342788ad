//! The layouts of nested columns built from values.

use quiver_types::builder::{fixed_parts, list_parts, map_parts, view_parts, whole_elements};
use quiver_types::{ArrayLayout, BuildError, DataType, Field, List, TypedArray};

#[test]
fn list_rows_are_flattened_with_running_offsets() {
    let parts = list_parts(vec![Some(vec!["a", "b"]), Some(vec![]), Some(vec!["c"])]);
    assert_eq!(parts.items, ["a", "b", "c"]);
    assert_eq!(parts.offsets, [0, 2, 2, 3]);
    // Every row is valid: no validity buffer.
    assert_eq!(parts.validity, None);
}

#[test]
fn null_list_rows_take_no_items() {
    let parts = list_parts(vec![Some(vec![1, 2]), None, Some(vec![3])]);
    assert_eq!(parts.items, [1, 2, 3]);
    assert_eq!(parts.offsets, [0, 2, 2, 3]);
    assert_eq!(parts.validity, Some(vec![true, false, true]));
}

#[test]
fn an_empty_list_column_has_one_offset() {
    let parts = list_parts(Vec::<Option<Vec<u8>>>::new());
    assert!(parts.items.is_empty());
    assert_eq!(parts.offsets, [0]);
    assert_eq!(parts.validity, None);
}

#[test]
fn list_view_rows_are_contiguous_and_in_order() {
    let parts = view_parts(vec![Some(vec![1, 2, 3]), None, Some(vec![4])]);
    assert_eq!(parts.items, [1, 2, 3, 4]);
    assert_eq!(parts.offsets, [0, 3, 3]);
    assert_eq!(parts.sizes, [3, 0, 1]);
    assert_eq!(parts.validity, Some(vec![true, false, true]));
}

#[test]
fn fixed_size_list_null_rows_get_placeholder_slots() {
    let parts = fixed_parts(vec![Some(vec![1, 2]), None, Some(vec![3, 4])], 2);
    assert_eq!(parts.items, [Some(1), Some(2), None, None, Some(3), Some(4)]);
    assert_eq!(parts.validity, Some(vec![true, false, true]));
    let parts = fixed_parts(vec![Some(vec![1, 2, 3])], 3);
    assert_eq!(parts.items, [Some(1), Some(2), Some(3)]);
    assert_eq!(parts.validity, None);
}

#[test]
fn map_entries_split_into_keys_and_values() {
    let parts = map_parts(vec![Some(vec![("a", 1), ("a", 2)]), None, Some(vec![("b", 3)])]);
    // Duplicate keys are preserved.
    assert_eq!(parts.keys, ["a", "a", "b"]);
    assert_eq!(parts.values, [1, 2, 3]);
    assert_eq!(parts.offsets, [0, 2, 2, 3]);
    assert_eq!(parts.validity, Some(vec![true, false, true]));
}

#[test]
fn a_byte_buffer_must_hold_whole_elements() {
    assert!(matches!(whole_elements(32, 16), Ok(2)));
    assert!(matches!(whole_elements(0, 16), Ok(0)));
    assert!(matches!(
        whole_elements(33, 16),
        Err(BuildError::PartialElement { bytes: 33, width: 16 })
    ));
}

#[test]
fn a_built_list_column_is_valid() {
    let rows = vec![Some(vec![10i64, 20]), Some(vec![30])];
    let parts = list_parts(rows);
    let items = ArrayLayout {
        data_type: DataType::Int64,
        len: parts.items.len(),
        validity: None,
        offsets: Vec::new(),
        sizes: Vec::new(),
        offset: 0,
        children: Vec::new(),
    };
    let layout = ArrayLayout {
        data_type: DataType::List(Box::new(Field::new("item".to_owned(), DataType::Int64, false))),
        len: 2,
        validity: parts.validity,
        offsets: parts.offsets,
        sizes: Vec::new(),
        offset: 0,
        children: vec![items],
    };
    let array = TypedArray::<List<i64>>::try_new(layout).expect("building is infallible");
    let row = array.list_value(0);
    assert_eq!(row.len(), 2);
    assert_eq!((row.value(0), row.value(1)), (0, 1));
}

fn int64_leaf(len: usize, validity: Option<Vec<bool>>) -> ArrayLayout {
    ArrayLayout {
        data_type: DataType::Int64,
        len,
        validity,
        offsets: Vec::new(),
        sizes: Vec::new(),
        offset: 0,
        children: Vec::new(),
    }
}

#[test]
fn a_built_map_column_is_valid() {
    let parts = map_parts(vec![Some(vec![(1i64, 10i64), (2, 20)]), None, Some(vec![(3, 30)])]);
    let entries = Field::new(
        "entries".to_owned(),
        DataType::Struct(vec![
            Field::new("keys".to_owned(), DataType::Int64, false),
            Field::new("values".to_owned(), DataType::Int64, false),
        ]),
        false,
    );
    let layout = ArrayLayout {
        data_type: DataType::MapOf(Box::new(entries), false),
        len: 3,
        validity: parts.validity,
        offsets: parts.offsets,
        sizes: Vec::new(),
        offset: 0,
        children: vec![int64_leaf(parts.keys.len(), None), int64_leaf(parts.values.len(), None)],
    };
    let array = TypedArray::<Option<quiver_types::MapOf<i64, i64>>>::try_new(layout).expect("building is infallible");
    assert!(array.is_null(1));
    let entries = array.map_value(2);
    assert_eq!(entries.len(), 1);
    assert_eq!(parts.values[entries.clone().next().expect("one entry")], 30);
}

#[test]
fn a_built_fixed_size_list_column_is_valid() {
    let parts = fixed_parts(vec![Some(vec![1i64, 2]), None, Some(vec![3, 4])], 2);
    let slot_validity: Vec<bool> = parts.items.iter().map(Option::is_some).collect();
    let layout = ArrayLayout {
        data_type: DataType::FixedSizeList(Box::new(Field::new("item".to_owned(), DataType::Int64, true)), 2),
        len: 3,
        validity: parts.validity,
        offsets: Vec::new(),
        sizes: Vec::new(),
        offset: 0,
        children: vec![int64_leaf(6, Some(slot_validity))],
    };
    // The placeholder slots of the null row are null, and unreachable.
    let array = TypedArray::<Option<quiver_types::FixedSizeList<i64, 2>>>::try_new(layout)
        .expect("building is infallible");
    let row = array.list_value(2);
    assert_eq!((row.value(0), row.value(1)), (4, 5));
}
