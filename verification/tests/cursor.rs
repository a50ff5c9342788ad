//! Cursors over positions: list items, map entries, and rows.

use quiver_types::{ListValue, MapValue, TypedArrayIter};

#[test]
fn a_list_value_visits_its_range_in_order() {
    let mut items = ListValue::new(3, 7);
    assert_eq!(items.len(), 4);
    assert!(!items.is_empty());
    assert_eq!(items.get(0), Some(3));
    assert_eq!(items.get(3), Some(6));
    assert_eq!(items.get(4), None);
    assert_eq!(items.get(usize::MAX), None);
    assert_eq!(items.value(2), 5);
    assert_eq!(items.next(), Some(3));
    assert_eq!(items.next_back(), Some(6));
    assert_eq!(items.len(), 2);
    // The random-access methods see what is left.
    assert_eq!(items.get(0), Some(4));
    assert_eq!(items.last(), Some(5));
    assert_eq!(items.count(), 2);
}

#[test]
fn nth_skips_and_drains() {
    let mut items = ListValue::new(0, 5);
    assert_eq!(items.nth(1), Some(1));
    assert_eq!(items.next(), Some(2));
    assert_eq!(items.nth(5), None);
    assert!(items.is_empty());
    assert_eq!(items.next(), None);
    assert_eq!(items.next_back(), None);

    let mut items = ListValue::new(10, 15);
    assert_eq!(items.nth_back(1), Some(13));
    assert_eq!(items.next_back(), Some(12));
    assert_eq!(items.nth_back(3), None);
    assert_eq!(items.len(), 0);
    assert_eq!(ListValue::new(2, 2).last(), None);
}

#[test]
fn a_map_value_visits_its_entries() {
    let mut entries = MapValue::new(4, 6);
    assert_eq!(entries.len(), 2);
    assert_eq!(entries.next(), Some(4));
    assert_eq!(entries.next(), Some(5));
    assert_eq!(entries.next(), None);
    assert_eq!(entries.len(), 0);
}

#[test]
fn the_rows_of_an_array_meet_in_the_middle() {
    let mut rows = TypedArrayIter::new(5);
    assert_eq!(rows.next(), Some(0));
    assert_eq!(rows.next_back(), Some(4));
    assert_eq!(rows.nth(1), Some(2));
    assert_eq!(rows.len(), 1);
    assert_eq!(rows.next_back(), Some(3));
    assert_eq!(rows.next(), None);
    assert_eq!(TypedArrayIter::new(3).nth(3), None);
}
