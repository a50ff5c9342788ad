//! Iteration over sliced columns: every cursor operation (forward and back
//! `next`, `nth`, `last`, `count`, and a "meet in the middle" mix of `next`
//! and `next_back`), checked against an independently computed reference.
//!
//! A column's layout says *where* each value lives; the values themselves are
//! held here, in plain vectors, and read through the positions the column
//! hands out. The owned reads of sliced leaf columns go through arrow arrays
//! built from the values.

use quiver_types::builder::list_parts;
use quiver_types::{
    AnyList, ArrayLayout, Column, DataType, Dictionary, Field, FixedSizeBinary, List, LogicalType,
    TypedArray, Utf8, ValueArray,
};

fn leaf(data_type: DataType, validity: Option<Vec<bool>>, len: usize) -> ArrayLayout {
    ArrayLayout {
        data_type,
        len,
        validity,
        offsets: Vec::new(),
        sizes: Vec::new(),
        offset: 0,
        children: Vec::new(),
    }
}

/// The value of row `row`: the value its position in the buffers holds, or
/// `None` for a null row.
fn read<L: LogicalType, T: Clone>(array: &TypedArray<L>, values: &[T], row: usize) -> Option<T> {
    if array.is_null(row) {
        None
    } else {
        Some(values[array.value_index(row)].clone())
    }
}

/// Drives every cursor operation over the rows of `array` and checks each
/// against `expected`.
fn check_iter<L: LogicalType, T: Clone + PartialEq + std::fmt::Debug>(
    array: &TypedArray<L>,
    values: &[T],
    expected: &[Option<T>],
) {
    // Forward.
    let mut forward = Vec::new();
    let mut it = array.iter();
    while let Some(row) = it.next() {
        forward.push(read(array, values, row));
    }
    assert_eq!(forward, expected, "forward");

    // Reverse (`next_back`).
    let mut reversed = expected.to_vec();
    reversed.reverse();
    let mut backward = Vec::new();
    let mut it = array.iter();
    while let Some(row) = it.next_back() {
        backward.push(read(array, values, row));
    }
    assert_eq!(backward, reversed, "reverse");

    // `count` / `last` / `size_hint`.
    assert_eq!(array.iter().count(), expected.len(), "count");
    assert_eq!(array.iter().last().map(|row| read(array, values, row)), expected.last().cloned(), "last");
    assert_eq!(array.iter().size_hint(), (expected.len(), Some(expected.len())), "size_hint");
    assert_eq!(array.iter().len(), expected.len(), "len of the iterator");
    assert_eq!(array.len(), expected.len(), "len");

    // `nth` from every starting offset, plus one past the end.
    for n in 0..=expected.len() {
        let got = array.iter().nth(n).map(|row| read(array, values, row));
        assert_eq!(got, expected.get(n).cloned(), "nth({n})");
    }

    // Meet in the middle: alternate `next` and `next_back`.
    let mut it = array.iter();
    let mut front = 0;
    let mut back = expected.len();
    let mut take_front = true;
    while front < back {
        if take_front {
            let row = it.next().expect("a row is left");
            assert_eq!(read(array, values, row), expected[front], "mid next");
            front += 1;
        } else {
            back -= 1;
            let row = it.next_back().expect("a row is left");
            assert_eq!(read(array, values, row), expected[back], "mid back");
        }
        take_front = !take_front;
    }
    assert_eq!(it.next(), None, "drained next");
    assert_eq!(it.next_back(), None, "drained back");
}

fn somes<T: Clone>(values: &[T]) -> Vec<Option<T>> {
    values.iter().cloned().map(Some).collect()
}

/// The items of one list element, through its positions.
fn items<T: Clone>(values: &[T], list: quiver_types::ListValue) -> Vec<T> {
    let mut out = Vec::new();
    let mut list = list;
    while let Some(position) = list.next() {
        out.push(values[position].clone());
    }
    out
}

fn large_list_of_i64(rows: &[Option<Vec<i64>>]) -> (ArrayLayout, Vec<i64>) {
    let parts = list_parts(rows.to_vec());
    let items = leaf(DataType::Int64, None, parts.items.len());
    let item_field = Field::new("item".to_owned(), DataType::Int64, true);
    let layout = ArrayLayout {
        data_type: DataType::LargeList(Box::new(item_field)),
        len: rows.len(),
        validity: parts.validity,
        offsets: parts.offsets,
        sizes: Vec::new(),
        offset: 0,
        children: vec![items],
    };
    (layout, parts.items)
}

#[test]
fn primitive_column_sliced() {
    let values: Vec<i64> = (0..8).collect();
    let column = Column::<i64>::try_new(leaf(DataType::Int64, None, 8)).expect("valid");
    let array = &column.array;

    check_iter(array, &values, &somes(&[0, 1, 2, 3, 4, 5, 6, 7]));
    check_iter(&array.slice(2, 4), &values, &somes(&[2, 3, 4, 5]));
    check_iter(&array.slice(7, 1), &values, &somes(&[7]));
    check_iter(&array.slice(8, 0), &values, &somes::<i64>(&[]));

    // Sums, front to back and back to front.
    let sliced = column.slice(2, 4);
    let mut it = sliced.array.iter();
    let mut sum = 0;
    while let Some(row) = it.next() {
        sum += values[sliced.array.value_index(row)];
    }
    assert_eq!(sum, 2 + 3 + 4 + 5);
    let mut it = sliced.array.iter();
    let mut sum = 0;
    while let Some(row) = it.next_back() {
        sum += values[sliced.array.value_index(row)];
    }
    assert_eq!(sum, 2 + 3 + 4 + 5);

    // `nth` on a slice.
    let sliced = array.slice(2, 4);
    assert_eq!(sliced.iter().nth(2).map(|row| values[sliced.value_index(row)]), Some(4));

    // Owned values of an arrow array built from the values: forward, `nth`,
    // reverse.
    let built = ValueArray::<i64>::from_values(values.clone());
    assert_eq!(built.slice(2, 4).to_vec(), [2, 3, 4, 5]);
    let sliced = built.slice(2, 4);
    assert_eq!(sliced.typed().iter().nth(2).map(|row| sliced.value(row)), Some(4));
    let mut reversed = Vec::new();
    let mut it = sliced.typed().iter();
    while let Some(row) = it.next_back() {
        reversed.push(sliced.value(row));
    }
    assert_eq!(reversed, [5, 4, 3, 2]);
    assert_eq!(built.slice(8, 0).to_vec(), Vec::<i64>::new());
}

#[test]
fn string_column_sliced() {
    let values = ["a", "bb", "ccc", "dddd", "eeeee"];
    let column = Column::<Utf8>::try_new(leaf(DataType::Utf8, None, 5)).expect("valid");
    let array = &column.array;

    check_iter(array, &values, &somes(&["a", "bb", "ccc", "dddd", "eeeee"]));
    check_iter(&array.slice(1, 3), &values, &somes(&["bb", "ccc", "dddd"]));
    check_iter(&array.slice(4, 1), &values, &somes(&["eeeee"]));

    let built = ValueArray::<Utf8>::from_values(values.iter().map(|v| v.to_string()).collect());
    assert_eq!(built.slice(1, 3).to_vec(), ["bb", "ccc", "dddd"]);
    assert_eq!(built.slice(4, 1).to_vec(), ["eeeee"]);
}

#[test]
fn nullable_column_sliced() {
    let values: Vec<i64> = vec![0, 0, 2, 0, 4, 5];
    let validity = vec![true, false, true, false, true, true];
    let column = Column::<Option<i64>>::try_new(leaf(DataType::Int64, Some(validity), 6)).expect("valid");
    let array = &column.array;

    check_iter(array, &values, &[Some(0), None, Some(2), None, Some(4), Some(5)]);
    check_iter(&array.slice(1, 4), &values, &[None, Some(2), None, Some(4)]);

    let built = ValueArray::<Option<i64>>::from_nullable_values(vec![Some(0), None, Some(2), None, Some(4), Some(5)]);
    assert_eq!(built.slice(1, 4).to_vec(), [None, Some(2), None, Some(4)]);
}

#[test]
fn nullable_string_column_sliced() {
    let values = ["a", "", "ccc", "", "eeeee", "f"];
    let validity = vec![true, false, true, false, true, true];
    let column = Column::<Option<Utf8>>::try_new(leaf(DataType::Utf8, Some(validity), 6)).expect("valid");
    let array = &column.array;

    check_iter(array, &values, &[Some("a"), None, Some("ccc"), None, Some("eeeee"), Some("f")]);
    check_iter(&array.slice(1, 4), &values, &[None, Some("ccc"), None, Some("eeeee")]);

    let built = ValueArray::<Option<Utf8>>::from_nullable_values(
        [Some("a"), None, Some("ccc"), None, Some("eeeee"), Some("f")].iter().map(|v| v.map(str::to_string)).collect(),
    );
    assert_eq!(
        built.slice(1, 4).to_vec(),
        [None, Some("ccc".to_string()), None, Some("eeeee".to_string())]
    );
}

#[test]
fn any_list_column_sliced() {
    let rows = [
        Some(vec![0, 1, 2]),
        Some(vec![]),
        Some(vec![3, 4]),
        Some(vec![5, 6, 7, 8]),
        Some(vec![9]),
    ];
    let (layout, values) = large_list_of_i64(&rows);
    let column = Column::<AnyList<i64>>::try_new(layout).expect("a LargeList of i64 parses as AnyList<i64>");
    let array = &column.array;

    // Forward, over a row-sliced column.
    let sliced = array.slice(2, 2);
    let mut got = Vec::new();
    let mut it = sliced.iter();
    while let Some(row) = it.next() {
        got.push(items(&values, sliced.list_value(row)));
    }
    assert_eq!(got, [vec![3, 4], vec![5, 6, 7, 8]]);

    // Reverse iteration of the row column.
    let mut got = Vec::new();
    let mut it = array.iter();
    while let Some(row) = it.next_back() {
        got.push(items(&values, array.list_value(row)));
    }
    assert_eq!(got, [vec![9], vec![5, 6, 7, 8], vec![3, 4], vec![], vec![0, 1, 2]]);

    // Random access and `nth` over the sliced row column.
    assert_eq!(items(&values, sliced.list_value(1)), vec![5, 6, 7, 8]);
    assert_eq!(
        array.iter().nth(3).map(|row| items(&values, array.list_value(row))),
        Some(vec![5, 6, 7, 8])
    );
}

#[test]
fn nullable_any_list_column_sliced() {
    let rows = [
        Some(vec![0, 1]),
        None,
        Some(vec![2]),
        None,
        Some(vec![3, 4, 5]),
    ];
    let (layout, values) = large_list_of_i64(&rows);
    let column = Column::<Option<AnyList<i64>>>::try_new(layout)
        .expect("a nullable LargeList of i64 parses as Option<AnyList<i64>>");

    let collect = |array: &TypedArray<Option<AnyList<i64>>>| -> Vec<Option<Vec<i64>>> {
        let mut out = Vec::new();
        let mut it = array.iter();
        while let Some(row) = it.next() {
            if array.is_null(row) {
                out.push(None);
            } else {
                out.push(Some(items(&values, array.list_value(row))));
            }
        }
        out
    };

    assert_eq!(
        collect(&column.array),
        [Some(vec![0, 1]), None, Some(vec![2]), None, Some(vec![3, 4, 5])]
    );
    assert_eq!(collect(&column.array.slice(1, 3)), [None, Some(vec![2]), None]);
}

#[test]
fn fixed_size_binary_column_sliced() {
    let values = [[0u8, 1], [2, 3], [4, 5], [6, 7]];
    let column =
        Column::<FixedSizeBinary<2>>::try_new(leaf(DataType::FixedSizeBinary(2), None, 4)).expect("valid");
    let array = &column.array;

    check_iter(array, &values, &somes(&[[0, 1], [2, 3], [4, 5], [6, 7]]));
    check_iter(&array.slice(1, 2), &values, &somes(&[[2, 3], [4, 5]]));
}

#[test]
fn dictionary_column_sliced() {
    // The dictionary of ["x", "y", "x", "z", "y"]: keys into the values ["x", "y", "z"].
    let values = ["x", "y", "z"];
    let layout = ArrayLayout {
        data_type: DataType::Dictionary(Box::new(DataType::Int32), Box::new(DataType::Utf8)),
        len: 5,
        validity: None,
        offsets: vec![0, 1, 0, 2, 1],
        sizes: Vec::new(),
        offset: 0,
        children: vec![leaf(DataType::Utf8, None, 3)],
    };
    let column = Column::<Dictionary<i32, Utf8>>::try_new(layout).expect("dictionary fits an i32 key");

    let collect = |array: &TypedArray<Dictionary<i32, Utf8>>| -> Vec<&str> {
        let mut out = Vec::new();
        let mut it = array.iter();
        while let Some(row) = it.next() {
            out.push(values[array.value_position(row)]);
        }
        out
    };
    assert_eq!(collect(&column.array), ["x", "y", "x", "z", "y"]);
    assert_eq!(collect(&column.array.slice(1, 3)), ["y", "x", "z"]);
    let sliced = column.array.slice(1, 3);
    assert_eq!(sliced.iter().nth(2).map(|row| values[sliced.value_position(row)]), Some("z"));
    assert_eq!(sliced.iter().next_back().map(|row| values[sliced.value_position(row)]), Some("z"));
}

#[test]
fn list_column_and_list_value_sliced() {
    let rows = vec![
        Some(vec![0i64, 1, 2]),
        Some(vec![]),
        Some(vec![3, 4]),
        Some(vec![5, 6, 7, 8]),
        Some(vec![9]),
    ];
    let parts = list_parts(rows);
    let values = parts.items.clone();
    let layout = ArrayLayout {
        data_type: DataType::List(Box::new(Field::new("item".to_owned(), DataType::Int64, false))),
        len: 5,
        validity: parts.validity,
        offsets: parts.offsets,
        sizes: Vec::new(),
        offset: 0,
        children: vec![leaf(DataType::Int64, None, values.len())],
    };
    let column = Column::<List<i64>>::try_new(layout).expect("valid");
    let array = &column.array;

    // The list column itself, sliced by row.
    let sliced = array.slice(2, 2);
    let mut got = Vec::new();
    let mut it = sliced.iter();
    while let Some(row) = it.next() {
        got.push(items(&values, sliced.list_value(row)));
    }
    assert_eq!(got, [vec![3, 4], vec![5, 6, 7, 8]]);

    // Reverse iteration of the row column.
    let mut got = Vec::new();
    let mut it = array.iter();
    while let Some(row) = it.next_back() {
        got.push(items(&values, array.list_value(row)));
    }
    assert_eq!(got, [vec![9], vec![5, 6, 7, 8], vec![3, 4], vec![], vec![0, 1, 2]]);

    // Every `ListValue` operation on a multi-item row.
    let row = array.list_value(3); // [5, 6, 7, 8]
    let at = |position: Option<usize>| position.map(|p| values[p]);
    assert_eq!(row.len(), 4);
    assert_eq!(items(&values, row), [5, 6, 7, 8]);
    let mut back = Vec::new();
    let mut it = row;
    while let Some(p) = it.next_back() {
        back.push(values[p]);
    }
    assert_eq!(back, [8, 7, 6, 5]);
    assert_eq!(at(row.clone().nth(2)), Some(7));
    assert_eq!(at(row.clone().nth(4)), None);
    assert_eq!(at(row.clone().nth_back(1)), Some(7));
    assert_eq!(at(row.last()), Some(8));
    assert_eq!(row.count(), 4);
    assert_eq!(items(&values, row).iter().sum::<i64>(), 5 + 6 + 7 + 8);
    let slice: Vec<i64> = (0..row.len()).map(|i| values[row.value(i)]).collect();
    assert_eq!(slice, [5, 6, 7, 8]);

    // Meet in the middle within one row.
    let mut it = row;
    assert_eq!(at(it.next()), Some(5));
    assert_eq!(at(it.next_back()), Some(8));
    assert_eq!(at(it.next()), Some(6));
    assert_eq!(at(it.next_back()), Some(7));
    assert_eq!(it.next(), None);
    assert_eq!(it.next_back(), None);
}
