//! Counting the *reachable* nulls of nested arrays.
//!
//! A child array (the items of a list, the keys or values of a map, the
//! values of a dictionary or a run-end-encoded array) may hold nulls that no
//! valid row can reach: outside a sliced window, inside the range of a null
//! row, or in dictionary entries no key points at. Only the reachable ones
//! count as nulls of the column.
//!
//! Validity is given per slot, `true` for a valid (non-null) slot; `None`
//! means "no validity buffer": every slot is valid.

use vstd::prelude::*;

verus! {

/// The number of nulls (`false` slots) among `v[lo..hi]`.
pub open spec fn count_nulls(v: Seq<bool>, lo: int, hi: int) -> nat
    decreases hi - lo,
{
    if hi <= lo {
        0
    } else {
        count_nulls(v, lo, hi - 1) + if v[hi - 1] {
            0nat
        } else {
            1nat
        }
    }
}

/// The number of nulls among the slots `lo..hi` of an optional validity buffer.
pub open spec fn nulls_in(validity: Option<Seq<bool>>, lo: int, hi: int) -> nat {
    match validity {
        None => 0,
        Some(v) => count_nulls(v, lo, hi),
    }
}

/// Is row `r` valid?
pub open spec fn is_valid(validity: Option<Seq<bool>>, r: int) -> bool {
    match validity {
        None => true,
        Some(v) => v[r],
    }
}

/// The nulls reachable through the rows `lo..hi` of a list-like array whose
/// row `r` holds the items `offsets[r]..offsets[r + 1]`.
pub open spec fn list_reachable_nulls(
    offsets: Seq<usize>,
    rows: Option<Seq<bool>>,
    items: Option<Seq<bool>>,
    lo: int,
    hi: int,
) -> nat
    decreases hi - lo,
{
    if hi <= lo {
        0
    } else {
        list_reachable_nulls(offsets, rows, items, lo, hi - 1) + if is_valid(rows, hi - 1) {
            nulls_in(items, offsets[hi - 1] as int, offsets[hi] as int)
        } else {
            0nat
        }
    }
}

/// The nulls reachable through the rows `lo..hi` of a list-view array whose
/// row `r` holds the items `offsets[r]..offsets[r] + sizes[r]`.
pub open spec fn view_reachable_nulls(
    offsets: Seq<usize>,
    sizes: Seq<usize>,
    rows: Option<Seq<bool>>,
    items: Option<Seq<bool>>,
    lo: int,
    hi: int,
) -> nat
    decreases hi - lo,
{
    if hi <= lo {
        0
    } else {
        view_reachable_nulls(offsets, sizes, rows, items, lo, hi - 1) + if is_valid(rows, hi - 1) {
            nulls_in(items, offsets[hi - 1] as int, offsets[hi - 1] + sizes[hi - 1])
        } else {
            0nat
        }
    }
}

/// The offsets of a fixed-size list array: row `r` starts at `start + r * size`.
pub open spec fn fixed_offsets(start: int, size: int, n: int) -> Seq<usize> {
    Seq::new((n + 1) as nat, |r: int| (start + r * size) as usize)
}

/// Offsets that never decrease, within `0..=bound`.
pub open spec fn offsets_ok(offsets: Seq<usize>, bound: int) -> bool {
    &&& forall|i: int, j: int| 0 <= i <= j < offsets.len() ==> offsets[i] <= offsets[j]
    &&& forall|i: int| 0 <= i < offsets.len() ==> offsets[i] <= bound
}

/// A validity buffer, if any, of exactly `n` slots.
pub open spec fn validity_len(validity: Option<Seq<bool>>, n: int) -> bool {
    match validity {
        None => true,
        Some(v) => v.len() == n,
    }
}

/// The validity buffer as plain values.
pub open spec fn validity_view(validity: &Option<Vec<bool>>) -> Option<Seq<bool>> {
    match validity {
        None => None,
        Some(v) => Some(v@),
    }
}

pub proof fn lemma_count_nulls_split(v: Seq<bool>, lo: int, mid: int, hi: int)
    requires
        lo <= mid <= hi,
    ensures
        count_nulls(v, lo, hi) == count_nulls(v, lo, mid) + count_nulls(v, mid, hi),
    decreases hi - mid,
{
    if hi > mid {
        lemma_count_nulls_split(v, lo, mid, hi - 1);
    }
}

pub proof fn lemma_count_nulls_bound(v: Seq<bool>, lo: int, hi: int)
    ensures
        lo <= hi ==> count_nulls(v, lo, hi) <= hi - lo,
    decreases hi - lo,
{
    if hi > lo {
        lemma_count_nulls_bound(v, lo, hi - 1);
    }
}

/// Splitting the rows of a list-like array splits its reachable nulls.
pub proof fn lemma_list_split(
    offsets: Seq<usize>,
    rows: Option<Seq<bool>>,
    items: Option<Seq<bool>>,
    lo: int,
    mid: int,
    hi: int,
)
    requires
        lo <= mid <= hi,
    ensures
        list_reachable_nulls(offsets, rows, items, lo, hi) == list_reachable_nulls(
            offsets,
            rows,
            items,
            lo,
            mid,
        ) + list_reachable_nulls(offsets, rows, items, mid, hi),
    decreases hi - mid,
{
    if hi > mid {
        lemma_list_split(offsets, rows, items, lo, mid, hi - 1);
    }
}

/// The reachable nulls of a list-like array are at most the nulls in the
/// window its rows span; when every row is valid they are exactly those.
pub proof fn lemma_list_window(
    offsets: Seq<usize>,
    rows: Option<Seq<bool>>,
    items: Option<Seq<bool>>,
    lo: int,
    hi: int,
)
    requires
        0 <= lo <= hi < offsets.len(),
        forall|i: int, j: int| 0 <= i <= j < offsets.len() ==> offsets[i] <= offsets[j],
    ensures
        list_reachable_nulls(offsets, rows, items, lo, hi) <= nulls_in(
            items,
            offsets[lo] as int,
            offsets[hi] as int,
        ),
        rows is None ==> list_reachable_nulls(offsets, rows, items, lo, hi) == nulls_in(
            items,
            offsets[lo] as int,
            offsets[hi] as int,
        ),
    decreases hi - lo,
{
    if hi > lo {
        lemma_list_window(offsets, rows, items, lo, hi - 1);
        if let Some(v) = items {
            lemma_count_nulls_split(v, offsets[lo] as int, offsets[hi - 1] as int, offsets[hi] as int);
        }
    }
}

/// Counts the nulls among `v[lo..hi]`.
pub fn count_nulls_exec(v: &Vec<bool>, lo: usize, hi: usize) -> (r: usize)
    requires
        lo <= hi <= v@.len(),
    ensures
        r == count_nulls(v@, lo as int, hi as int),
{
    let mut count: usize = 0;
    let mut i: usize = lo;
    while i < hi
        invariant
            lo <= i <= hi <= v@.len(),
            count == count_nulls(v@, lo as int, i as int),
        decreases hi - i,
    {
        proof {
            lemma_count_nulls_bound(v@, lo as int, i as int);
        }
        if !v[i] {
            count += 1;
        }
        i += 1;
    }
    count
}

/// Counts the nulls among the slots `lo..hi` of an optional validity buffer.
pub fn nulls_in_exec(validity: &Option<Vec<bool>>, lo: usize, hi: usize) -> (r: usize)
    requires
        lo <= hi,
        validity matches Some(v) ==> hi <= v@.len(),
    ensures
        r == nulls_in(validity_view(validity), lo as int, hi as int),
{
    match validity {
        None => 0,
        Some(v) => count_nulls_exec(v, lo, hi),
    }
}

/// Counts the nulls among the *reachable* items of a list-like array (a
/// `List`, `LargeList`, or a map's keys or values): the items inside the
/// ranges of valid rows. Nulls outside the window the rows span, or inside the
/// range of a null row, do not count.
pub fn list_item_null_count(offsets: &Vec<usize>, rows: &Option<Vec<bool>>, items: &Option<Vec<bool>>) -> (r: usize)
    requires
        offsets@.len() >= 1,
        validity_len(validity_view(rows), offsets@.len() - 1),
        offsets_ok(offsets@, match items {
            Some(v) => v@.len() as int,
            None => usize::MAX as int,
        }),
    ensures
        r == list_reachable_nulls(
            offsets@,
            validity_view(rows),
            validity_view(items),
            0,
            offsets@.len() - 1,
        ),
{
    let n = offsets.len() - 1;
    let ghost o = offsets@;
    let ghost rv = validity_view(rows);
    let ghost iv = validity_view(items);
    proof {
        lemma_list_window(o, rv, iv, 0, n as int);
    }
    let item_nulls = match items {
        None => {
            return 0;
        },
        Some(v) => v,
    };
    let window_start = offsets[0];
    let window_end = offsets[n];
    let in_window = count_nulls_exec(item_nulls, window_start, window_end);
    if in_window == 0 {
        // Fast path: no nulls anywhere in the referenced window.
        return 0;
    }
    let row_validity = match rows {
        // All rows valid: every item in the window is reachable.
        None => {
            return in_window;
        },
        Some(v) => v,
    };
    // Only count the items of valid rows.
    let mut total: usize = 0;
    let mut row: usize = 0;
    while row < n
        invariant
            0 <= row <= n,
            n == o.len() - 1,
            o == offsets@,
            rv == Some(row_validity@),
            iv == Some(item_nulls@),
            row_validity@.len() == n,
            offsets_ok(o, item_nulls@.len() as int),
            total == list_reachable_nulls(o, rv, iv, 0, row as int),
            in_window == nulls_in(iv, o[0] as int, o[n as int] as int),
            list_reachable_nulls(o, rv, iv, 0, n as int) <= in_window,
        decreases n - row,
    {
        proof {
            lemma_list_split(o, rv, iv, 0, row as int, n as int);
            lemma_list_split(o, rv, iv, row as int, row + 1, n as int);
        }
        if row_validity[row] {
            let start = offsets[row];
            let end = offsets[row + 1];
            if start != end {
                total += count_nulls_exec(item_nulls, start, end);
            }
        }
        row += 1;
    }
    total
}


/// The nulls among a sub-range of the slots are at most those among all of them.
pub proof fn lemma_count_nulls_sub(v: Seq<bool>, lo: int, hi: int)
    requires
        0 <= lo <= hi <= v.len(),
    ensures
        count_nulls(v, lo, hi) <= count_nulls(v, 0, v.len() as int),
{
    lemma_count_nulls_split(v, 0, lo, v.len() as int);
    lemma_count_nulls_split(v, lo, hi, v.len() as int);
}

pub proof fn lemma_view_split(
    offsets: Seq<usize>,
    sizes: Seq<usize>,
    rows: Option<Seq<bool>>,
    items: Option<Seq<bool>>,
    lo: int,
    mid: int,
    hi: int,
)
    requires
        lo <= mid <= hi,
    ensures
        view_reachable_nulls(offsets, sizes, rows, items, lo, hi) == view_reachable_nulls(
            offsets,
            sizes,
            rows,
            items,
            lo,
            mid,
        ) + view_reachable_nulls(offsets, sizes, rows, items, mid, hi),
    decreases hi - mid,
{
    if hi > mid {
        lemma_view_split(offsets, sizes, rows, items, lo, mid, hi - 1);
    }
}

/// With no null anywhere among the items, no null is reachable.
pub proof fn lemma_view_no_item_nulls(
    offsets: Seq<usize>,
    sizes: Seq<usize>,
    rows: Option<Seq<bool>>,
    v: Seq<bool>,
    lo: int,
    hi: int,
)
    requires
        0 <= lo,
        hi <= offsets.len(),
        hi <= sizes.len(),
        forall|r: int| 0 <= r < offsets.len() ==> offsets[r] + sizes[r] <= v.len(),
        count_nulls(v, 0, v.len() as int) == 0,
    ensures
        view_reachable_nulls(offsets, sizes, rows, Some(v), lo, hi) == 0,
    decreases hi - lo,
{
    if hi > lo {
        lemma_view_no_item_nulls(offsets, sizes, rows, v, lo, hi - 1);
        lemma_count_nulls_sub(v, offsets[hi - 1] as int, offsets[hi - 1] + sizes[hi - 1]);
    }
}

/// Counts the nulls among the *reachable* items of a list-view array
/// (`ListView` or `LargeListView`): the items inside the ranges of valid
/// rows. List-view ranges may overlap or be out of order, so each valid row's
/// range is counted on its own.
pub fn view_item_null_count(
    offsets: &Vec<usize>,
    sizes: &Vec<usize>,
    rows: &Option<Vec<bool>>,
    items: &Option<Vec<bool>>,
) -> (r: usize)
    requires
        offsets@.len() == sizes@.len(),
        validity_len(validity_view(rows), offsets@.len() as int),
        forall|i: int|
            0 <= i < offsets@.len() ==> offsets@[i] + sizes@[i] <= match items {
                Some(v) => v@.len() as int,
                None => usize::MAX as int,
            },
        view_reachable_nulls(
            offsets@,
            sizes@,
            validity_view(rows),
            validity_view(items),
            0,
            offsets@.len() as int,
        ) <= usize::MAX,
    ensures
        r == view_reachable_nulls(
            offsets@,
            sizes@,
            validity_view(rows),
            validity_view(items),
            0,
            offsets@.len() as int,
        ),
{
    let n = offsets.len();
    let ghost o = offsets@;
    let ghost z = sizes@;
    let ghost rv = validity_view(rows);
    let ghost iv = validity_view(items);
    let item_nulls = match items {
        None => {
            proof {
                assert(view_reachable_nulls(o, z, rv, iv, 0, n as int) == 0) by {
                    lemma_view_none(o, z, rv, 0, n as int);
                }
            }
            return 0;
        },
        Some(v) => v,
    };
    if count_nulls_exec(item_nulls, 0, item_nulls.len()) == 0 {
        // Fast path: no nulls anywhere in the values array.
        proof {
            lemma_view_no_item_nulls(o, z, rv, item_nulls@, 0, n as int);
        }
        return 0;
    }
    let item_len = item_nulls.len();
    let mut total: usize = 0;
    let mut row: usize = 0;
    while row < n
        invariant
            0 <= row <= n,
            item_len == item_nulls@.len(),
            n == o.len(),
            o == offsets@,
            z == sizes@,
            o.len() == z.len(),
            rv == validity_view(rows),
            iv == Some(item_nulls@),
            validity_len(rv, n as int),
            forall|i: int| 0 <= i < o.len() ==> o[i] + z[i] <= item_nulls@.len(),
            view_reachable_nulls(o, z, rv, iv, 0, n as int) <= usize::MAX,
            total == view_reachable_nulls(o, z, rv, iv, 0, row as int),
        decreases n - row,
    {
        proof {
            lemma_view_split(o, z, rv, iv, 0, row as int, n as int);
            lemma_view_split(o, z, rv, iv, row as int, row + 1, n as int);
        }
        let valid = match rows {
            None => true,
            Some(v) => v[row],
        };
        if valid {
            let start = offsets[row];
            let size = sizes[row];
            assert(o[row as int] + z[row as int] <= item_nulls@.len());
            if size != 0 {
                total += count_nulls_exec(item_nulls, start, start + size);
            }
        }
        row += 1;
    }
    total
}

pub proof fn lemma_view_none(
    offsets: Seq<usize>,
    sizes: Seq<usize>,
    rows: Option<Seq<bool>>,
    lo: int,
    hi: int,
)
    ensures
        view_reachable_nulls(offsets, sizes, rows, None, lo, hi) == 0,
    decreases hi - lo,
{
    if hi > lo {
        lemma_view_none(offsets, sizes, rows, lo, hi - 1);
    }
}

pub proof fn lemma_list_none(offsets: Seq<usize>, rows: Option<Seq<bool>>, lo: int, hi: int)
    ensures
        list_reachable_nulls(offsets, rows, None, lo, hi) == 0,
    decreases hi - lo,
{
    if hi > lo {
        lemma_list_none(offsets, rows, lo, hi - 1);
    }
}

/// The offsets of a fixed-size list never decrease.
pub proof fn lemma_fixed_offsets_ok(start: int, size: int, n: int, bound: int)
    requires
        0 <= start,
        0 <= size,
        0 <= n,
        start + n * size <= bound <= usize::MAX,
    ensures
        offsets_ok(fixed_offsets(start, size, n), bound),
        fixed_offsets(start, size, n).len() == n + 1,
{
    let o = fixed_offsets(start, size, n);
    assert forall|i: int, j: int| 0 <= i <= j < o.len() implies o[i] <= o[j] by {
        assert(i * size <= j * size <= n * size) by (nonlinear_arith)
            requires
                0 <= i <= j <= n,
                0 <= size,
        ;
    }
    assert forall|i: int| 0 <= i < o.len() implies o[i] <= bound by {
        assert(0 <= i * size <= n * size) by (nonlinear_arith)
            requires
                0 <= i <= n,
                0 <= size,
        ;
    }
}

/// Counts the nulls among the *reachable* items of a fixed-size list array:
/// the `size` items of each valid row, the first row starting at item `start`.
pub fn fixed_item_null_count(start: usize, size: usize, n: usize, rows: &Option<Vec<bool>>, items: &Option<Vec<bool>>) -> (r: usize)
    requires
        validity_len(validity_view(rows), n as int),
        start + n * size <= match items {
            Some(v) => v@.len() as int,
            None => usize::MAX as int,
        },
    ensures
        r == list_reachable_nulls(
            fixed_offsets(start as int, size as int, n as int),
            validity_view(rows),
            validity_view(items),
            0,
            n as int,
        ),
{
    let ghost o = fixed_offsets(start as int, size as int, n as int);
    let ghost rv = validity_view(rows);
    let ghost iv = validity_view(items);
    let item_nulls = match items {
        None => {
            proof {
                lemma_list_none(o, rv, 0, n as int);
            }
            return 0;
        },
        Some(v) => v,
    };
    let item_len = item_nulls.len();
    assert(start + n * size <= item_len);
    proof {
        lemma_fixed_offsets_ok(start as int, size as int, n as int, item_nulls@.len() as int);
        lemma_list_window(o, rv, iv, 0, n as int);
        assert(0 <= n * size) by (nonlinear_arith)
            requires
                0 <= n,
                0 <= size,
        ;
    }
    let window_len = n * size;
    if n == 0 {
        return 0;
    }
    let in_window = count_nulls_exec(item_nulls, start, start + window_len);
    if in_window == 0 {
        // Fast path: no nulls anywhere in the referenced window.
        return 0;
    }
    let row_validity = match rows {
        // All rows valid: every item in the window is reachable.
        None => {
            return in_window;
        },
        Some(v) => v,
    };
    let mut total: usize = 0;
    let mut row: usize = 0;
    let mut row_start: usize = start;
    while row < n
        invariant
            0 <= row <= n,
            item_len == item_nulls@.len(),
            start + n * size <= item_len,
            o == fixed_offsets(start as int, size as int, n as int),
            o.len() == n + 1,
            rv == Some(row_validity@),
            iv == Some(item_nulls@),
            row_validity@.len() == n,
            offsets_ok(o, item_nulls@.len() as int),
            row_start == o[row as int],
            total == list_reachable_nulls(o, rv, iv, 0, row as int),
            list_reachable_nulls(o, rv, iv, 0, n as int) <= in_window,
        decreases n - row,
    {
        proof {
            lemma_list_split(o, rv, iv, 0, row as int, n as int);
            lemma_list_split(o, rv, iv, row as int, row + 1, n as int);
            assert(start + (row + 1) * size == start + row * size + size) by (nonlinear_arith);
            assert((row + 1) * size <= n * size) by (nonlinear_arith)
                requires
                    row + 1 <= n,
                    0 <= size,
            ;
            assert(o[row + 1] == start + (row + 1) * size);
            assert(o[row + 1] <= item_nulls@.len());
        }
        if row_validity[row] {
            total += count_nulls_exec(item_nulls, row_start, row_start + size);
        }
        row_start = row_start + size;
        row += 1;
    }
    total
}


/// Does the entry `k` of an optional validity buffer hold a null?
pub open spec fn entry_null(values: Option<Seq<bool>>, k: int) -> bool {
    match values {
        None => false,
        Some(v) => 0 <= k < v.len() && !v[k],
    }
}

/// The rows `lo..hi` of a dictionary array whose key is valid and points at a
/// null entry of the value table.
pub open spec fn dict_referenced_nulls(
    keys: Seq<usize>,
    rows: Option<Seq<bool>>,
    values: Option<Seq<bool>>,
    lo: int,
    hi: int,
) -> nat
    decreases hi - lo,
{
    if hi <= lo {
        0
    } else {
        dict_referenced_nulls(keys, rows, values, lo, hi - 1) + if is_valid(rows, hi - 1) && entry_null(
            values,
            keys[hi - 1] as int,
        ) {
            1nat
        } else {
            0nat
        }
    }
}

/// The logical nulls of a dictionary array, as arrow counts them: rows whose
/// key is null, or points at a null entry.
pub open spec fn dict_logical_nulls(
    keys: Seq<usize>,
    rows: Option<Seq<bool>>,
    values: Option<Seq<bool>>,
    lo: int,
    hi: int,
) -> nat
    decreases hi - lo,
{
    if hi <= lo {
        0
    } else {
        dict_logical_nulls(keys, rows, values, lo, hi - 1) + if !is_valid(rows, hi - 1) || entry_null(
            values,
            keys[hi - 1] as int,
        ) {
            1nat
        } else {
            0nat
        }
    }
}

pub open spec fn row_nulls(rows: Option<Seq<bool>>, lo: int, hi: int) -> nat
    decreases hi - lo,
{
    if hi <= lo {
        0
    } else {
        row_nulls(rows, lo, hi - 1) + if is_valid(rows, hi - 1) {
            0nat
        } else {
            1nat
        }
    }
}

/// The logical nulls of a dictionary are its null keys plus the valid keys
/// that point at a null entry.
pub proof fn lemma_dict_partition(
    keys: Seq<usize>,
    rows: Option<Seq<bool>>,
    values: Option<Seq<bool>>,
    lo: int,
    hi: int,
)
    ensures
        dict_logical_nulls(keys, rows, values, lo, hi) == row_nulls(rows, lo, hi) + dict_referenced_nulls(
            keys,
            rows,
            values,
            lo,
            hi,
        ),
        row_nulls(rows, lo, hi) <= if hi > lo { hi - lo } else { 0 },
    decreases hi - lo,
{
    if hi > lo {
        lemma_dict_partition(keys, rows, values, lo, hi - 1);
    }
}

pub proof fn lemma_dict_split(
    keys: Seq<usize>,
    rows: Option<Seq<bool>>,
    values: Option<Seq<bool>>,
    lo: int,
    mid: int,
    hi: int,
)
    requires
        lo <= mid <= hi,
    ensures
        dict_referenced_nulls(keys, rows, values, lo, hi) == dict_referenced_nulls(
            keys,
            rows,
            values,
            lo,
            mid,
        ) + dict_referenced_nulls(keys, rows, values, mid, hi),
    decreases hi - mid,
{
    if hi > mid {
        lemma_dict_split(keys, rows, values, lo, mid, hi - 1);
    }
}

/// A value table without nulls has no null entry to point at.
pub proof fn lemma_dict_no_entry_nulls(
    keys: Seq<usize>,
    rows: Option<Seq<bool>>,
    v: Seq<bool>,
    lo: int,
    hi: int,
)
    requires
        count_nulls(v, 0, v.len() as int) == 0,
    ensures
        dict_referenced_nulls(keys, rows, Some(v), lo, hi) == 0,
    decreases hi - lo,
{
    if hi > lo {
        lemma_dict_no_entry_nulls(keys, rows, v, lo, hi - 1);
        let k = keys[hi - 1] as int;
        if 0 <= k < v.len() && !v[k] {
            lemma_count_nulls_split(v, 0, k, v.len() as int);
            lemma_count_nulls_split(v, k, k + 1, v.len() as int);
        }
    }
}

/// Counts the rows of a dictionary array whose (valid) key points at a null
/// entry of the value table. Null entries that no key references do not
/// count, and neither do null keys (those are nulls of the rows themselves).
///
/// As in arrow, the logical nulls (null keys, plus keys pointing at null
/// entries) are counted, and the null keys subtracted.
pub fn dictionary_referenced_null_count(
    keys: &Vec<usize>,
    rows: &Option<Vec<bool>>,
    values: &Option<Vec<bool>>,
) -> (r: usize)
    requires
        validity_len(validity_view(rows), keys@.len() as int),
    ensures
        r == dict_referenced_nulls(
            keys@,
            validity_view(rows),
            validity_view(values),
            0,
            keys@.len() as int,
        ),
{
    let n = keys.len();
    let ghost kv = keys@;
    let ghost rv = validity_view(rows);
    let ghost vv = validity_view(values);
    let entries = match values {
        None => {
            proof {
                lemma_dict_partition(kv, rv, vv, 0, n as int);
                lemma_dict_none(kv, rv, 0, n as int);
            }
            return 0;
        },
        Some(v) => v,
    };
    if count_nulls_exec(entries, 0, entries.len()) == 0 {
        proof {
            lemma_dict_no_entry_nulls(kv, rv, entries@, 0, n as int);
        }
        return 0;
    }
    let mut logical: usize = 0;
    let mut null_keys: usize = 0;
    let mut row: usize = 0;
    while row < n
        invariant
            0 <= row <= n,
            n == kv.len(),
            kv == keys@,
            rv == validity_view(rows),
            vv == Some(entries@),
            validity_len(rv, n as int),
            logical == dict_logical_nulls(kv, rv, vv, 0, row as int),
            null_keys == row_nulls(rv, 0, row as int),
        decreases n - row,
    {
        proof {
            lemma_dict_logical_bound(kv, rv, vv, 0, row as int);
            lemma_dict_partition(kv, rv, vv, 0, row as int);
        }
        let valid = match rows {
            None => true,
            Some(v) => v[row],
        };
        let key = keys[row];
        let entry_is_null = key < entries.len() && !entries[key];
        if !valid || entry_is_null {
            logical += 1;
        }
        if !valid {
            null_keys += 1;
        }
        row += 1;
    }
    proof {
        lemma_dict_partition(kv, rv, vv, 0, n as int);
    }
    logical.saturating_sub(null_keys)
}

pub proof fn lemma_dict_logical_bound(
    keys: Seq<usize>,
    rows: Option<Seq<bool>>,
    values: Option<Seq<bool>>,
    lo: int,
    hi: int,
)
    requires
        lo <= hi,
    ensures
        dict_logical_nulls(keys, rows, values, lo, hi) <= hi - lo,
    decreases hi - lo,
{
    if hi > lo {
        lemma_dict_logical_bound(keys, rows, values, lo, hi - 1);
    }
}

pub proof fn lemma_dict_none(keys: Seq<usize>, rows: Option<Seq<bool>>, lo: int, hi: int)
    ensures
        dict_referenced_nulls(keys, rows, None, lo, hi) == 0,
    decreases hi - lo,
{
    if hi > lo {
        lemma_dict_none(keys, rows, lo, hi - 1);
    }
}

/// The physical index of logical position `p` in a run-end-encoded array:
/// the first run (from `i` on) that ends after `p`.
pub open spec fn run_of(run_ends: Seq<usize>, p: int, i: int) -> int
    decreases run_ends.len() - i,
{
    if i >= run_ends.len() {
        run_ends.len() as int
    } else if run_ends[i] > p {
        i
    } else {
        run_of(run_ends, p, i + 1)
    }
}

/// Run ends that strictly increase.
pub open spec fn run_ends_ok(run_ends: Seq<usize>) -> bool {
    forall|i: int, j: int| 0 <= i < j < run_ends.len() ==> run_ends[i] < run_ends[j]
}

/// The logical positions `lo..hi` of a run-end-encoded array whose run value is null.
pub open spec fn run_logical_nulls(run_ends: Seq<usize>, values: Option<Seq<bool>>, lo: int, hi: int) -> nat
    decreases hi - lo,
{
    if hi <= lo {
        0
    } else {
        run_logical_nulls(run_ends, values, lo, hi - 1) + if entry_null(
            values,
            run_of(run_ends, hi - 1, 0),
        ) {
            1nat
        } else {
            0nat
        }
    }
}

pub proof fn lemma_run_split(run_ends: Seq<usize>, values: Option<Seq<bool>>, lo: int, mid: int, hi: int)
    requires
        lo <= mid <= hi,
    ensures
        run_logical_nulls(run_ends, values, lo, hi) == run_logical_nulls(run_ends, values, lo, mid)
            + run_logical_nulls(run_ends, values, mid, hi),
    decreases hi - mid,
{
    if hi > mid {
        lemma_run_split(run_ends, values, lo, mid, hi - 1);
    }
}

/// A position inside run `i` belongs to run `i`.
pub proof fn lemma_run_of(run_ends: Seq<usize>, p: int, i: int, j: int)
    requires
        run_ends_ok(run_ends),
        0 <= j <= i < run_ends.len(),
        i > 0 ==> run_ends[i - 1] <= p,
        p < run_ends[i],
    ensures
        run_of(run_ends, p, j) == i,
    decreases i - j,
{
    if j < i {
        assert(run_ends[j] <= run_ends[i - 1]);
        lemma_run_of(run_ends, p, i, j + 1);
    }
}

/// The positions `lo..hi`, all inside run `i`, are all null or all valid.
pub proof fn lemma_run_segment(run_ends: Seq<usize>, values: Option<Seq<bool>>, i: int, lo: int, hi: int)
    requires
        run_ends_ok(run_ends),
        0 <= i < run_ends.len(),
        i > 0 ==> run_ends[i - 1] <= lo,
        hi <= run_ends[i],
        lo <= hi,
    ensures
        run_logical_nulls(run_ends, values, lo, hi) == if entry_null(values, i) {
            hi - lo
        } else {
            0
        },
    decreases hi - lo,
{
    if hi > lo {
        lemma_run_segment(run_ends, values, i, lo, hi - 1);
        lemma_run_of(run_ends, hi - 1, i, 0);
    }
}

/// `run_of` is the first run that ends after the position.
pub proof fn lemma_run_of_first(run_ends: Seq<usize>, p: int, k: int, j: int)
    requires
        0 <= j <= k <= run_ends.len(),
        forall|m: int| 0 <= m < k ==> run_ends[m] <= p,
        k < run_ends.len() ==> run_ends[k] > p,
    ensures
        run_of(run_ends, p, j) == k,
    decreases k - j,
{
    if j < k {
        lemma_run_of_first(run_ends, p, k, j + 1);
    }
}

/// The physical index of the logical position `p` of a run-end-encoded
/// array: the first run whose end is past `p` (a binary search).
pub fn physical_index(run_ends: &Vec<usize>, p: usize) -> (r: usize)
    requires
        run_ends_ok(run_ends@),
    ensures
        r == run_of(run_ends@, p as int, 0),
        r <= run_ends@.len(),
        run_ends@.len() > 0 && p < run_ends@.last() ==> r < run_ends@.len(),
{
    let mut lo: usize = 0;
    let mut hi: usize = run_ends.len();
    while lo < hi
        invariant
            0 <= lo <= hi <= run_ends@.len(),
            run_ends_ok(run_ends@),
            forall|m: int| 0 <= m < lo ==> run_ends@[m] <= p,
            forall|m: int| hi <= m < run_ends@.len() ==> run_ends@[m] > p,
        decreases hi - lo,
    {
        let mid = lo + (hi - lo) / 2;
        if run_ends[mid] <= p {
            assert forall|m: int| 0 <= m < mid + 1 implies run_ends@[m] <= p by {
                if m < mid {
                    assert(run_ends@[m] < run_ends@[mid as int]);
                }
            }
            lo = mid + 1;
        } else {
            assert forall|m: int| mid <= m < run_ends@.len() implies run_ends@[m] > p by {
                if m > mid {
                    assert(run_ends@[mid as int] < run_ends@[m]);
                }
            }
            hi = mid;
        }
    }
    proof {
        lemma_run_of_first(run_ends@, p as int, lo as int, 0);
    }
    lo
}

pub proof fn lemma_run_none(run_ends: Seq<usize>, lo: int, hi: int)
    ensures
        run_logical_nulls(run_ends, None, lo, hi) == 0,
    decreases hi - lo,
{
    if hi > lo {
        lemma_run_none(run_ends, lo, hi - 1);
    }
}

/// Counts the logical positions `offset..offset + len` of a run-end-encoded
/// array whose run value is null: the reachable nulls of its values, each
/// counted once per position its run covers.
pub fn run_logical_null_count(run_ends: &Vec<usize>, offset: usize, len: usize, values: &Option<Vec<bool>>) -> (r: usize)
    requires
        run_ends_ok(run_ends@),
        offset + len <= usize::MAX,
        len > 0 ==> run_ends@.len() > 0 && offset + len <= run_ends@.last(),
        values matches Some(v) ==> v@.len() >= run_ends@.len(),
    ensures
        r == run_logical_nulls(run_ends@, validity_view(values), offset as int, offset + len),
{
    let ghost re = run_ends@;
    let ghost vv = validity_view(values);
    let entries = match values {
        None => {
            proof {
                lemma_run_none(re, offset as int, offset + len);
            }
            return 0;
        },
        Some(v) => v,
    };
    let window_end = offset + len;
    let mut total: usize = 0;
    let mut prev_end: usize = 0;
    let mut i: usize = 0;
    while i < run_ends.len() && prev_end < window_end
        invariant
            0 <= i <= re.len(),
            re == run_ends@,
            run_ends_ok(re),
            vv == Some(entries@),
            entries@.len() >= re.len(),
            window_end == offset + len,
            len > 0 ==> re.len() > 0 && window_end <= re.last(),
            prev_end == if i == 0 { 0 } else { re[i - 1] as int },
            total == run_logical_nulls(re, vv, offset as int, clamp(prev_end as int, offset as int, window_end as int)),
            total <= clamp(prev_end as int, offset as int, window_end as int) - offset,
        decreases re.len() - i,
    {
        let end = run_ends[i];
        let lo = if prev_end > offset { prev_end } else { offset };
        let hi = if end < window_end { end } else { window_end };
        proof {
            if i > 0 {
                assert(re[i - 1] < re[i as int]);
            }
            let a = clamp(prev_end as int, offset as int, window_end as int);
            let b = clamp(end as int, offset as int, window_end as int);
            lemma_run_split(re, vv, offset as int, a, b);
            if a < b {
                lemma_run_segment(re, vv, i as int, a, b);
            }
        }
        if lo < hi && !entries[i] {
            total += hi - lo;
        }
        prev_end = end;
        i += 1;
    }
    proof {
        if len > 0 && i == re.len() {
            assert(prev_end == re.last());
        }
    }
    total
}

pub open spec fn clamp(x: int, lo: int, hi: int) -> int {
    if x < lo {
        lo
    } else if x > hi {
        hi
    } else {
        x
    }
}

} // verus!
