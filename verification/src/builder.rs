//! Building nested columns from owned values: the layouts that the list,
//! list-view, fixed-size-list, and map encodings are assembled from.
//!
//! Each builder flattens the rows into one items sequence and computes the
//! offsets (or offsets and sizes) that map each row back to its items, and
//! the validity of the rows: `None` when every row is valid, so that a
//! column without nulls carries no validity buffer.

use vstd::prelude::*;

use crate::data_type::{plain_field, DataTypeSpec};
use crate::error::BuildError;
use crate::layout::{
    array_ok, downcast_nulls, lemma_optional_verdict, list_nulls, spec_verdict, top_nulls,
    LayoutSpec,
};
use crate::logical::{
    optional_of, spec_accepts, spec_nullable, spec_rejects_nulls, Logical,
};
use crate::nulls::{
    count_nulls, fixed_offsets, is_valid, lemma_count_nulls_sub, lemma_list_none, lemma_list_window,
    list_reachable_nulls, offsets_ok, validity_len,
};

verus! {

/// The items of a row: none for a null row.
pub open spec fn row_items<T>(row: Option<Vec<T>>) -> Seq<T> {
    match row {
        Some(items) => items@,
        None => Seq::empty(),
    }
}

/// The items of the rows, one row after the other.
pub open spec fn flatten<T>(rows: Seq<Option<Vec<T>>>) -> Seq<T>
    decreases rows.len(),
{
    if rows.len() == 0 {
        Seq::empty()
    } else {
        flatten(rows.drop_last()) + row_items(rows.last())
    }
}

/// The validity of the rows: `None` when every row is valid, else one flag
/// per row.
pub open spec fn rows_validity<T>(rows: Seq<Option<Vec<T>>>) -> Option<Seq<bool>> {
    if forall|i: int| 0 <= i < rows.len() ==> #[trigger] rows[i] is Some {
        None
    } else {
        Some(rows.map_values(|row: Option<Vec<T>>| row is Some))
    }
}

/// The start of each row's items, and the end of the last: `len + 1` running
/// totals from 0.
pub open spec fn offsets_of<T>(rows: Seq<Option<Vec<T>>>) -> Seq<usize> {
    Seq::new(rows.len() + 1, |i: int| flatten(rows.take(i)).len() as usize)
}

/// A list (or map) column assembled from rows: row `r` holds the items
/// `offsets[r]..offsets[r + 1]`.
#[derive(Debug)]
pub struct ListParts<T> {
    pub offsets: Vec<usize>,
    pub validity: Option<Vec<bool>>,
    pub items: Vec<T>,
}

pub proof fn lemma_flatten_push<T>(rows: Seq<Option<Vec<T>>>, row: Option<Vec<T>>)
    ensures
        flatten(rows.push(row)) == flatten(rows) + row_items(row),
{
    assert(rows.push(row).drop_last() =~= rows);
}

fn validity_of(flags: Vec<bool>, all_valid: bool) -> (r: Option<Vec<bool>>)
    ensures
        all_valid ==> r is None,
        !all_valid ==> r == Some(flags),
{
    if all_valid {
        None
    } else {
        Some(flags)
    }
}

/// Flattens the rows of a list column: the items of each valid row, in
/// order; the running offsets; and the row validity, absent when every row
/// is valid.
pub fn list_parts<T>(rows: Vec<Option<Vec<T>>>) -> (r: ListParts<T>)
    requires
        flatten(rows@).len() <= usize::MAX,
    ensures
        r.items@ == flatten(rows@),
        r.offsets@ == offsets_of(rows@),
        validity_view_of(&r.validity) == rows_validity(rows@),
{
    let ghost all = rows@;
    let mut offsets: Vec<usize> = Vec::new();
    let mut flags: Vec<bool> = Vec::new();
    let mut items: Vec<T> = Vec::new();
    let mut all_valid = true;
    offsets.push(0);
    proof {
        lemma_flatten_prefix_bound(all, 0);
    }
    for row in it: rows
        invariant
            all == it.seq(),
            flatten(all).len() <= usize::MAX,
            items@ == flatten(all.take(it.index() as int)),
            offsets@.len() == it.index() + 1,
            forall|i: int| 0 <= i <= it.index() ==> #[trigger] offsets@[i] == flatten(all.take(i)).len(),
            flags@.len() == it.index(),
            forall|i: int| 0 <= i < it.index() ==> #[trigger] flags@[i] == (all[i] is Some),
            all_valid == forall|i: int| 0 <= i < it.index() ==> #[trigger] all[i] is Some,
    {
        let ghost k = it.index() as int;
        proof {
            assert(all.take(k + 1) =~= all.take(k).push(all[k]));
            lemma_flatten_push(all.take(k), all[k]);
            lemma_flatten_prefix_bound(all, k + 1);
        }
        match row {
            Some(mut row_items_vec) => {
                items.append(&mut row_items_vec);
                flags.push(true);
            },
            None => {
                flags.push(false);
                all_valid = false;
            },
        }
        offsets.push(items.len());
    }
    proof {
        assert(all.take(all.len() as int) =~= all);
        assert(offsets@ =~= offsets_of(all));
        assert(flags@ =~= all.map_values(|row: Option<Vec<T>>| row is Some));
    }
    ListParts { offsets, validity: validity_of(flags, all_valid), items }
}

/// The validity flags of an optional buffer, as plain values.
pub open spec fn validity_view_of(v: &Option<Vec<bool>>) -> Option<Seq<bool>> {
    match v {
        Some(flags) => Some(flags@),
        None => None,
    }
}

/// The items of a prefix of the rows are no more than those of all the rows.
pub proof fn lemma_flatten_prefix_bound<T>(rows: Seq<Option<Vec<T>>>, k: int)
    requires
        0 <= k <= rows.len(),
    ensures
        flatten(rows.take(k)).len() <= flatten(rows).len(),
    decreases rows.len() - k,
{
    if k < rows.len() {
        lemma_flatten_prefix_bound(rows, k + 1);
        assert(rows.take(k + 1) =~= rows.take(k).push(rows[k]));
        lemma_flatten_push(rows.take(k), rows[k]);
    } else {
        assert(rows.take(k) =~= rows);
    }
}

/// A list-view column assembled from rows: row `r` holds the items
/// `offsets[r]..offsets[r] + sizes[r]`; the simplest layout, contiguous and
/// in order.
#[derive(Debug)]
pub struct ViewParts<T> {
    pub offsets: Vec<usize>,
    pub sizes: Vec<usize>,
    pub validity: Option<Vec<bool>>,
    pub items: Vec<T>,
}

/// Flattens the rows of a list-view column: as [`list_parts`], with each
/// row's start and size in place of the running offsets.
pub fn view_parts<T>(rows: Vec<Option<Vec<T>>>) -> (r: ViewParts<T>)
    requires
        flatten(rows@).len() <= usize::MAX,
    ensures
        r.items@ == flatten(rows@),
        r.offsets@.len() == rows@.len(),
        r.sizes@.len() == rows@.len(),
        forall|i: int| 0 <= i < rows@.len() ==> #[trigger] r.offsets@[i] == offsets_of(rows@)[i],
        forall|i: int| 0 <= i < rows@.len() ==> #[trigger] r.sizes@[i] == row_items(rows@[i]).len(),
        validity_view_of(&r.validity) == rows_validity(rows@),
{
    let ghost all = rows@;
    let n = rows.len();
    let parts = list_parts(rows);
    let ListParts { offsets: ends, validity, items } = parts;
    let mut offsets: Vec<usize> = Vec::new();
    let mut sizes: Vec<usize> = Vec::new();
    let mut i: usize = 0;
    while i < n
        invariant
            n == all.len(),
            0 <= i <= all.len(),
            ends@ == offsets_of(all),
            ends@.len() == all.len() + 1,
            flatten(all).len() <= usize::MAX,
            offsets@.len() == i,
            sizes@.len() == i,
            forall|j: int| 0 <= j < i ==> #[trigger] offsets@[j] == offsets_of(all)[j],
            forall|j: int| 0 <= j < i ==> #[trigger] sizes@[j] == row_items(all[j]).len(),
        decreases n - i,
    {
        proof {
            assert(all.take(i + 1) =~= all.take(i as int).push(all[i as int]));
            lemma_flatten_push(all.take(i as int), all[i as int]);
            lemma_flatten_prefix_bound(all, i + 1);
        }
        offsets.push(ends[i]);
        sizes.push(ends[i + 1] - ends[i]);
        i += 1;
    }
    ViewParts { offsets, sizes, validity, items }
}

/// The item slots of a fixed-size-list row: its items, or `size`
/// placeholders for a null row.
pub open spec fn padded_row<T>(row: Option<Vec<T>>, size: nat) -> Seq<Option<T>> {
    match row {
        Some(items) => items@.map_values(|item: T| Some(item)),
        None => Seq::new(size, |j: int| None),
    }
}

/// The item slots of the rows of a fixed-size list, one row after the other.
pub open spec fn padded<T>(rows: Seq<Option<Vec<T>>>, size: nat) -> Seq<Option<T>>
    decreases rows.len(),
{
    if rows.len() == 0 {
        Seq::empty()
    } else {
        padded(rows.drop_last(), size) + padded_row(rows.last(), size)
    }
}

/// Every valid row holds exactly `size` items.
pub open spec fn rows_of_size<T>(rows: Seq<Option<Vec<T>>>, size: nat) -> bool {
    forall|i: int| 0 <= i < rows.len() ==> (#[trigger] rows[i] matches Some(items) ==> items@.len() == size)
}

/// A fixed-size-list column assembled from rows.
#[derive(Debug)]
pub struct FixedParts<T> {
    pub validity: Option<Vec<bool>>,
    pub items: Vec<Option<T>>,
}

pub proof fn lemma_padded_len<T>(rows: Seq<Option<Vec<T>>>, size: nat)
    requires
        rows_of_size(rows, size),
    ensures
        padded(rows, size).len() == rows.len() * size,
    decreases rows.len(),
{
    if rows.len() > 0 {
        let init = rows.drop_last();
        assert forall|i: int| 0 <= i < init.len() implies (#[trigger] init[i] matches Some(items)
            ==> items@.len() == size) by {
            assert(init[i] == rows[i]);
        }
        lemma_padded_len(init, size);
        assert(rows.len() * size == (rows.len() - 1) * size + size) by (nonlinear_arith);
    }
}

/// Flattens the rows of a fixed-size-list column: each valid row's `size`
/// items, and `size` null placeholder slots for each null row (masked by the
/// row validity, absent when every row is valid).
pub fn fixed_parts<T>(rows: Vec<Option<Vec<T>>>, size: usize) -> (r: FixedParts<T>)
    requires
        rows_of_size(rows@, size as nat),
        rows@.len() * size <= usize::MAX,
    ensures
        r.items@ == padded(rows@, size as nat),
        r.items@.len() == rows@.len() * size,
        validity_view_of(&r.validity) == rows_validity(rows@),
{
    let ghost all = rows@;
    let mut flags: Vec<bool> = Vec::new();
    let mut items: Vec<Option<T>> = Vec::new();
    let mut all_valid = true;
    proof {
        lemma_padded_len(all, size as nat);
    }
    for row in it: rows
        invariant
            all == it.seq(),
            rows_of_size(all, size as nat),
            all.len() * size <= usize::MAX,
            items@ == padded(all.take(it.index() as int), size as nat),
            flags@.len() == it.index(),
            forall|i: int| 0 <= i < it.index() ==> #[trigger] flags@[i] == (all[i] is Some),
            all_valid == forall|i: int| 0 <= i < it.index() ==> #[trigger] all[i] is Some,
    {
        let ghost k = it.index() as int;
        let ghost before = items@;
        proof {
            let front = all.take(k + 1);
            assert(front.drop_last() =~= all.take(k));
            assert(front.last() == all[k]);
            assert forall|i: int| 0 <= i < front.len() implies (#[trigger] front[i] matches Some(
                items,
            ) ==> items@.len() == size) by {
                assert(front[i] == all[i]);
            }
            lemma_padded_len(front, size as nat);
            assert((k + 1) * size <= all.len() * size) by (nonlinear_arith)
                requires
                    k + 1 <= all.len(),
            ;
        }
        match row {
            Some(values) => {
                let ghost vs = values@;
                for value in jt: values
                    invariant
                        vs == jt.seq(),
                        items@ == before + vs.take(jt.index() as int).map_values(|item: T| Some(item)),
                {
                    proof {
                        assert(vs.take(jt.index() + 1).map_values(|item: T| Some(item)) =~= vs.take(
                            jt.index() as int,
                        ).map_values(|item: T| Some(item)).push(Some(value)));
                    }
                    items.push(Some(value));
                }
                proof {
                    assert(vs.take(vs.len() as int) =~= vs);
                }
                flags.push(true);
            },
            None => {
                let mut j: usize = 0;
                while j < size
                    invariant
                        0 <= j <= size,
                        items@ == before + Seq::new(j as nat, |m: int| None::<T>),
                    decreases size - j,
                {
                    proof {
                        assert(Seq::new((j + 1) as nat, |m: int| None::<T>) =~= Seq::new(
                            j as nat,
                            |m: int| None::<T>,
                        ).push(None));
                    }
                    items.push(None);
                    j += 1;
                }
                flags.push(false);
                all_valid = false;
            },
        }
        proof {
            let front = all.take(k + 1);
            assert(front.drop_last() =~= all.take(k));
            assert(items@ =~= padded(front, size as nat));
        }
    }
    proof {
        assert(all.take(all.len() as int) =~= all);
        assert(flags@ =~= all.map_values(|row: Option<Vec<T>>| row is Some));
    }
    FixedParts { validity: validity_of(flags, all_valid), items }
}

/// A map column assembled from rows of key-value entries.
#[derive(Debug)]
pub struct MapParts<K, V> {
    pub offsets: Vec<usize>,
    pub validity: Option<Vec<bool>>,
    pub keys: Vec<K>,
    pub values: Vec<V>,
}

/// Flattens the rows of a map column: the entries of each valid row, in
/// order (duplicate keys are kept), split into one keys and one values
/// sequence; the running offsets; and the row validity.
pub fn map_parts<K, V>(rows: Vec<Option<Vec<(K, V)>>>) -> (r: MapParts<K, V>)
    requires
        flatten(rows@).len() <= usize::MAX,
    ensures
        r.keys@ == flatten(rows@).map_values(|entry: (K, V)| entry.0),
        r.values@ == flatten(rows@).map_values(|entry: (K, V)| entry.1),
        r.offsets@ == offsets_of(rows@),
        validity_view_of(&r.validity) == rows_validity(rows@),
{
    let ghost all = rows@;
    let parts = list_parts(rows);
    let ListParts { offsets, validity, items } = parts;
    let ghost entries = items@;
    let mut keys: Vec<K> = Vec::new();
    let mut values: Vec<V> = Vec::new();
    for entry in it: items
        invariant
            entries == it.seq(),
            keys@ == entries.take(it.index() as int).map_values(|e: (K, V)| e.0),
            values@ == entries.take(it.index() as int).map_values(|e: (K, V)| e.1),
    {
        let ghost k = it.index() as int;
        proof {
            assert(entries.take(k + 1) =~= entries.take(k).push(entries[k]));
            assert(entries.take(k + 1).map_values(|e: (K, V)| e.0) =~= entries.take(k).map_values(
                |e: (K, V)| e.0,
            ).push(entries[k].0));
            assert(entries.take(k + 1).map_values(|e: (K, V)| e.1) =~= entries.take(k).map_values(
                |e: (K, V)| e.1,
            ).push(entries[k].1));
        }
        let (key, value) = entry;
        keys.push(key);
        values.push(value);
    }
    proof {
        assert(entries.take(entries.len() as int) =~= entries);
    }
    MapParts { offsets, validity, keys, values }
}

/// The number of elements of `width` bytes in a buffer of `bytes` bytes; an
/// error for a trailing partial element.
pub fn whole_elements(bytes: usize, width: usize) -> (r: Result<usize, BuildError>)
    requires
        width > 0,
    ensures
        match r {
            Ok(n) => bytes % width == 0 && n == bytes / width,
            Err(BuildError::PartialElement { bytes: b, width: w }) => bytes % width != 0 && b == bytes
                && w == width,
            Err(_) => false,
        },
{
    if bytes % width != 0 {
        return Err(BuildError::PartialElement { bytes, width });
    }
    Ok(bytes / width)
}

/// The layout of a list array assembled from rows and an items array: the
/// list's data type (`List` or, when `large`, `LargeList`) over the item
/// field of `inner`.
pub open spec fn list_layout<T>(inner: Logical, large: bool, rows: Seq<Option<Vec<T>>>, items: LayoutSpec) -> LayoutSpec {
    LayoutSpec {
        data_type: if large {
            DataTypeSpec::LargeList(Box::new(plain_field("item"@, items.data_type, spec_nullable(inner))))
        } else {
            DataTypeSpec::List(Box::new(plain_field("item"@, items.data_type, spec_nullable(inner))))
        },
        len: rows.len() as usize,
        validity: rows_validity(rows),
        offsets: offsets_of(rows),
        sizes: Seq::empty(),
        offset: 0,
        children: seq![items],
    }
}

/// The running offsets never decrease, and end at the number of items.
pub proof fn lemma_offsets_of<T>(rows: Seq<Option<Vec<T>>>)
    requires
        flatten(rows).len() <= usize::MAX,
    ensures
        offsets_ok(offsets_of(rows), flatten(rows).len() as int),
        offsets_of(rows)[0] == 0,
        offsets_of(rows)[rows.len() as int] == flatten(rows).len(),
{
    let offs = offsets_of(rows);
    assert forall|i: int, j: int| 0 <= i <= j < offs.len() implies offs[i] <= offs[j] by {
        lemma_flatten_prefix_bound(rows.take(j), i);
        assert(rows.take(j).take(i) =~= rows.take(i));
        lemma_flatten_prefix_bound(rows, j);
    }
    assert forall|i: int| 0 <= i < offs.len() implies offs[i] <= flatten(rows).len() by {
        lemma_flatten_prefix_bound(rows, i);
    }
    assert(rows.take(0) =~= Seq::<Option<Vec<T>>>::empty());
    assert(rows.take(rows.len() as int) =~= rows);
}

/// Building is infallible: a list assembled from rows over a valid items
/// array of the item type is a well-formed array that the nullable list type
/// accepts — and the list type itself too, when no row is null.
pub proof fn lemma_list_parts_valid<T>(inner: Logical, large: bool, rows: Seq<Option<Vec<T>>>, items: LayoutSpec)
    requires
        flatten(rows).len() <= usize::MAX,
        rows.len() <= usize::MAX,
        items.len == flatten(rows).len(),
        array_ok(items),
        spec_verdict(inner, items) is Valid,
    ensures
        array_ok(list_layout(inner, large, rows, items)),
        spec_verdict(
            optional_of(if large { Logical::LargeList(Box::new(inner)) } else { Logical::List(Box::new(inner)) }),
            list_layout(inner, large, rows, items),
        ) is Valid,
        (forall|i: int| 0 <= i < rows.len() ==> #[trigger] rows[i] is Some) ==> spec_verdict(
            if large { Logical::LargeList(Box::new(inner)) } else { Logical::List(Box::new(inner)) },
            list_layout(inner, large, rows, items),
        ) is Valid,
{
    let a = list_layout(inner, large, rows, items);
    let l = if large { Logical::LargeList(Box::new(inner)) } else { Logical::List(Box::new(inner)) };
    lemma_offsets_of(rows);
    assert(a.children[0] == items);
    assert(array_ok(a));
    lemma_optional_verdict(l, a);
    let n = rows.len() as int;
    if spec_rejects_nulls(inner) {
        match items.validity {
            None => {
                lemma_list_none(a.offsets, a.validity, 0, n);
            },
            Some(v) => {
                lemma_list_window(a.offsets, a.validity, items.validity, 0, n);
                lemma_count_nulls_sub(v, 0, flatten(rows).len() as int);
                assert(v.take(v.len() as int) =~= v);
            },
        }
    }
    assert(list_nulls(a, a.children[0]) == 0 || !spec_rejects_nulls(inner));
    assert(downcast_nulls(l, a) == 0);
    if forall|i: int| 0 <= i < rows.len() ==> #[trigger] rows[i] is Some {
        assert(a.validity is None);
    }
}

/// The offsets of rows into a child without nulls reach no null.
proof fn lemma_no_reachable_nulls<T>(rows: Seq<Option<Vec<T>>>, child: LayoutSpec)
    requires
        flatten(rows).len() <= usize::MAX,
        child.len == flatten(rows).len(),
        validity_len(child.validity, child.len as int),
        top_nulls(child) == 0,
    ensures
        list_reachable_nulls(offsets_of(rows), rows_validity(rows), child.validity, 0, rows.len() as int) == 0,
{
    lemma_offsets_of(rows);
    let n = rows.len() as int;
    match child.validity {
        None => {
            lemma_list_none(offsets_of(rows), rows_validity(rows), 0, n);
        },
        Some(v) => {
            lemma_list_window(offsets_of(rows), rows_validity(rows), child.validity, 0, n);
            lemma_count_nulls_sub(v, 0, flatten(rows).len() as int);
        },
    }
}

/// The layout of a map array assembled from rows and its keys and values
/// arrays: the map data type over the key and value types.
pub open spec fn map_layout<K, V>(
    k: Logical,
    v: Logical,
    rows: Seq<Option<Vec<(K, V)>>>,
    keys: LayoutSpec,
    values: LayoutSpec,
) -> LayoutSpec {
    LayoutSpec {
        data_type: DataTypeSpec::MapOf(
            Box::new(
                plain_field(
                    "entries"@,
                    DataTypeSpec::Struct(
                        seq![
                            plain_field("keys"@, keys.data_type, false),
                            plain_field("values"@, values.data_type, spec_nullable(v)),
                        ],
                    ),
                    false,
                ),
            ),
            false,
        ),
        len: rows.len() as usize,
        validity: rows_validity(rows),
        offsets: offsets_of(rows),
        sizes: Seq::empty(),
        offset: 0,
        children: seq![keys, values],
    }
}

/// Building is infallible: a map assembled from rows over valid keys and
/// values arrays is a well-formed array that the nullable map type accepts —
/// and the map type itself too, when no row is null.
pub proof fn lemma_map_parts_valid<K, V>(
    k: Logical,
    v: Logical,
    rows: Seq<Option<Vec<(K, V)>>>,
    keys: LayoutSpec,
    values: LayoutSpec,
)
    requires
        flatten(rows).len() <= usize::MAX,
        rows.len() <= usize::MAX,
        keys.len == flatten(rows).len(),
        values.len == flatten(rows).len(),
        array_ok(keys),
        array_ok(values),
        spec_verdict(k, keys) is Valid,
        spec_verdict(v, values) is Valid,
    ensures
        array_ok(map_layout(k, v, rows, keys, values)),
        spec_verdict(optional_of(Logical::MapOf(Box::new(k), Box::new(v))), map_layout(k, v, rows, keys, values))
            is Valid,
        (forall|i: int| 0 <= i < rows.len() ==> #[trigger] rows[i] is Some) ==> spec_verdict(
            Logical::MapOf(Box::new(k), Box::new(v)),
            map_layout(k, v, rows, keys, values),
        ) is Valid,
{
    let l = Logical::MapOf(Box::new(k), Box::new(v));
    let a = map_layout(k, v, rows, keys, values);
    lemma_offsets_of(rows);
    assert(a.children[0] == keys && a.children[1] == values);
    assert(array_ok(a));
    lemma_optional_verdict(l, a);
    if spec_rejects_nulls(k) {
        lemma_no_reachable_nulls(rows, keys);
    }
    if spec_rejects_nulls(v) {
        lemma_no_reachable_nulls(rows, values);
    }
    assert(downcast_nulls(l, a) == 0);
    if forall|i: int| 0 <= i < rows.len() ==> #[trigger] rows[i] is Some {
        assert(a.validity is None);
    }
}

/// Slot `j` of row `r` of a fixed-size list is slot `r * size + j` of the
/// items.
pub proof fn lemma_padded_index<T>(rows: Seq<Option<Vec<T>>>, size: nat, r: int, j: int)
    requires
        rows_of_size(rows, size),
        0 <= r < rows.len(),
        0 <= j < size,
    ensures
        r * size + j < padded(rows, size).len(),
        padded(rows, size)[r * size + j] == padded_row(rows[r], size)[j],
    decreases rows.len(),
{
    let init = rows.drop_last();
    assert forall|i: int| 0 <= i < init.len() implies (#[trigger] init[i] matches Some(items) ==> items@.len()
        == size) by {
        assert(init[i] == rows[i]);
    }
    lemma_padded_len(init, size);
    lemma_padded_len(rows, size);
    assert(r * size + j < (r + 1) * size) by (nonlinear_arith)
        requires
            j < size,
    ;
    assert((r + 1) * size <= rows.len() * size) by (nonlinear_arith)
        requires
            r + 1 <= rows.len(),
    ;
    if r < rows.len() - 1 {
        assert((r + 1) * size <= init.len() * size) by (nonlinear_arith)
            requires
                r + 1 <= init.len(),
        ;
        assert(init[r] == rows[r]);
        lemma_padded_index(init, size, r, j);
    } else {
        assert(r * size == init.len() * size);
    }
}

proof fn lemma_count_all_valid(v: Seq<bool>, lo: int, hi: int)
    requires
        forall|j: int| lo <= j < hi ==> v[j],
    ensures
        count_nulls(v, lo, hi) == 0,
    decreases hi - lo,
{
    if hi > lo {
        lemma_count_all_valid(v, lo, hi - 1);
    }
}

/// The placeholder slots of null rows are the only null slots a fixed-size
/// list built from rows holds, and no valid row reaches them.
proof fn lemma_fixed_no_reachable_nulls<T>(rows: Seq<Option<Vec<T>>>, size: nat, items: Option<Seq<bool>>, hi: int)
    requires
        rows_of_size(rows, size),
        rows.len() * size <= usize::MAX,
        0 <= hi <= rows.len(),
        forall|j: int| 0 <= j < padded(rows, size).len() && #[trigger] padded(rows, size)[j] is Some ==> is_valid(
            items,
            j,
        ),
        items matches Some(v) ==> v.len() == padded(rows, size).len(),
    ensures
        list_reachable_nulls(fixed_offsets(0, size as int, rows.len() as int), rows_validity(rows), items, 0, hi) == 0,
    decreases hi,
{
    if hi > 0 {
        lemma_fixed_no_reachable_nulls(rows, size, items, hi - 1);
        let r = hi - 1;
        let offs = fixed_offsets(0, size as int, rows.len() as int);
        lemma_padded_len(rows, size);
        assert(hi * size <= rows.len() * size) by (nonlinear_arith)
            requires
                hi <= rows.len(),
        ;
        assert(r * size <= hi * size) by (nonlinear_arith)
            requires
                r <= hi,
        ;
        assert(hi * size == r * size + size) by (nonlinear_arith)
            requires
                hi == r + 1,
        ;
        assert(offs[r] == r * size);
        assert(offs[hi] == hi * size);
        if is_valid(rows_validity(rows), r) {
            assert(rows[r] is Some);
            if let Some(v) = items {
                assert forall|j: int| offs[r] <= j < offs[hi] implies v[j] by {
                    lemma_padded_index(rows, size, r, j - r * size);
                }
                lemma_count_all_valid(v, offs[r] as int, offs[hi] as int);
            }
        }
    }
}

/// The layout of a fixed-size list array assembled from rows and an items
/// array: the items field is nullable, for the placeholder slots of null rows.
pub open spec fn fixed_layout<T>(inner: Logical, size: usize, rows: Seq<Option<Vec<T>>>, items: LayoutSpec) -> LayoutSpec {
    LayoutSpec {
        data_type: DataTypeSpec::FixedSizeList(
            Box::new(plain_field("item"@, items.data_type, true)),
            size as i32,
        ),
        len: rows.len() as usize,
        validity: rows_validity(rows),
        offsets: Seq::empty(),
        sizes: Seq::empty(),
        offset: 0,
        children: seq![items],
    }
}

/// Building is infallible: a fixed-size list assembled from rows over an
/// items array that is valid where it holds items — null only at the
/// placeholder slots of null rows — when the items reject nulls, is a
/// well-formed array that the nullable list type accepts, and the list type
/// itself when no row is null.
pub proof fn lemma_fixed_parts_valid<T>(inner: Logical, size: usize, rows: Seq<Option<Vec<T>>>, items: LayoutSpec)
    requires
        size <= i32::MAX,
        rows_of_size(rows, size as nat),
        rows.len() <= usize::MAX,
        rows.len() * size <= usize::MAX,
        items.len == rows.len() * size,
        array_ok(items),
        spec_accepts(inner, items.data_type),
        downcast_nulls(inner, items) == 0,
        spec_rejects_nulls(inner) ==> forall|j: int|
            0 <= j < items.len && #[trigger] padded(rows, size as nat)[j] is Some ==> is_valid(items.validity, j),
    ensures
        array_ok(fixed_layout(inner, size, rows, items)),
        spec_verdict(
            optional_of(Logical::FixedSizeList(Box::new(inner), size)),
            fixed_layout(inner, size, rows, items),
        ) is Valid,
        (forall|i: int| 0 <= i < rows.len() ==> #[trigger] rows[i] is Some) ==> spec_verdict(
            Logical::FixedSizeList(Box::new(inner), size),
            fixed_layout(inner, size, rows, items),
        ) is Valid,
{
    let l = Logical::FixedSizeList(Box::new(inner), size);
    let a = fixed_layout(inner, size, rows, items);
    lemma_padded_len(rows, size as nat);
    assert(a.children[0] == items);
    assert((size as i32) as int == size as int);
    assert(a.len as int == rows.len());
    assert(array_ok(a));
    lemma_optional_verdict(l, a);
    if spec_rejects_nulls(inner) {
        lemma_fixed_no_reachable_nulls(rows, size as nat, items.validity, rows.len() as int);
    }
    assert(downcast_nulls(l, a) == 0);
    if forall|i: int| 0 <= i < rows.len() ==> #[trigger] rows[i] is Some {
        assert(a.validity is None);
    }
}

/// The items of the first rows are the start of the items of all the rows.
pub proof fn lemma_flatten_prefix<T>(rows: Seq<Option<Vec<T>>>, k: int)
    requires
        0 <= k <= rows.len(),
    ensures
        flatten(rows.take(k)) == flatten(rows).take(flatten(rows.take(k)).len() as int),
    decreases rows.len() - k,
{
    if k == rows.len() {
        assert(rows.take(k) =~= rows);
        assert(flatten(rows).take(flatten(rows).len() as int) =~= flatten(rows));
    } else {
        lemma_flatten_prefix(rows, k + 1);
        assert(rows.take(k + 1) =~= rows.take(k).push(rows[k]));
        lemma_flatten_push(rows.take(k), rows[k]);
        lemma_flatten_prefix_bound(rows, k + 1);
        let short = flatten(rows.take(k));
        let long = flatten(rows.take(k + 1));
        let all = flatten(rows);
        assert(short =~= long.take(short.len() as int));
        assert forall|idx: int| 0 <= idx < short.len() implies short[idx] == all[idx] by {
            assert(short[idx] == long[idx]);
            assert(long[idx] == all.take(long.len() as int)[idx]);
        }
        assert(short =~= all.take(short.len() as int));
    }
}

/// Reading back what was built: row `i` of a list built from rows spans the
/// offsets `offsets[i]..offsets[i + 1]`, and the items there are the row's
/// items, in order (none for a null row).
pub proof fn lemma_list_read_back<T>(rows: Seq<Option<Vec<T>>>, i: int, j: int)
    requires
        0 <= i < rows.len(),
        flatten(rows).len() <= usize::MAX,
    ensures
        offsets_of(rows)[i + 1] - offsets_of(rows)[i] == row_items(rows[i]).len(),
        0 <= j < row_items(rows[i]).len() ==> flatten(rows)[offsets_of(rows)[i] + j] == row_items(rows[i])[j],
{
    lemma_flatten_prefix(rows, i + 1);
    lemma_flatten_prefix_bound(rows, i + 1);
    assert(rows.take(i + 1) =~= rows.take(i).push(rows[i]));
    lemma_flatten_push(rows.take(i), rows[i]);
    let before = flatten(rows.take(i));
    let upto = flatten(rows.take(i + 1));
    assert(upto.len() == before.len() + row_items(rows[i]).len());
    assert(offsets_of(rows)[i] == before.len());
    assert(offsets_of(rows)[i + 1] == upto.len());
    if 0 <= j < row_items(rows[i]).len() {
        assert(upto[before.len() + j] == row_items(rows[i])[j]);
        assert(flatten(rows).take(upto.len() as int)[before.len() + j] == flatten(rows)[before.len() + j]);
    }
}

/// Reading back what was built: entry `j` of row `i` of a map built from
/// rows has that entry's key in the keys and its value in the values.
pub proof fn lemma_map_read_back<K, V>(rows: Seq<Option<Vec<(K, V)>>>, i: int, j: int)
    requires
        0 <= i < rows.len(),
        flatten(rows).len() <= usize::MAX,
        0 <= j < row_items(rows[i]).len(),
    ensures
        flatten(rows).map_values(|entry: (K, V)| entry.0)[offsets_of(rows)[i] + j] == row_items(rows[i])[j].0,
        flatten(rows).map_values(|entry: (K, V)| entry.1)[offsets_of(rows)[i] + j] == row_items(rows[i])[j].1,
{
    lemma_list_read_back(rows, i, j);
    lemma_offsets_of(rows);
    assert(offsets_of(rows)[i + 1] <= flatten(rows).len());
}

} // verus!
