//! Checking that an array layout is well-formed for its own data type — the
//! guarantees arrow gives of every array it constructs, which validation
//! relies on. A layout converted from an arrow array always passes; the
//! check is there for layouts assembled by hand.

use vstd::prelude::*;

use crate::data_type::{data_type_eq, lemma_fields_view, lemma_view_shape, DataType};
use crate::layout::{array_ok, lemma_layouts_view, ArrayLayout};
use crate::nulls::{
    is_valid, lemma_view_split, nulls_in_exec, offsets_ok, run_ends_ok, validity_len, validity_view,
    view_reachable_nulls,
};

verus! {

fn validity_has_len(v: &Option<Vec<bool>>, n: usize) -> (r: bool)
    ensures
        r == validity_len(validity_view(v), n as int),
{
    match v {
        Some(flags) => flags.len() == n,
        None => true,
    }
}

/// Do the offsets never decrease, and stay within `0..=bound`?
pub fn offsets_are_ok(offsets: &Vec<usize>, bound: usize) -> (r: bool)
    ensures
        r == offsets_ok(offsets@, bound as int),
{
    let mut i: usize = 0;
    while i < offsets.len()
        invariant
            0 <= i <= offsets@.len(),
            forall|j: int| 0 <= j < i ==> offsets@[j] <= bound,
            forall|j: int, k: int| 0 <= j <= k < i ==> offsets@[j] <= offsets@[k],
        decreases offsets.len() - i,
    {
        if offsets[i] > bound {
            return false;
        }
        if i > 0 && offsets[i - 1] > offsets[i] {
            return false;
        }
        proof {
            assert forall|j: int, k: int| 0 <= j <= k < i + 1 implies offsets@[j] <= offsets@[k] by {
                if k == i && j < i {
                    assert(offsets@[j] <= offsets@[i - 1]);
                }
            }
        }
        i += 1;
    }
    true
}

/// Do the run ends strictly increase?
pub fn run_ends_are_ok(run_ends: &Vec<usize>) -> (r: bool)
    ensures
        r == run_ends_ok(run_ends@),
{
    let mut i: usize = 1;
    if run_ends.len() == 0 {
        return true;
    }
    while i < run_ends.len()
        invariant
            1 <= i <= run_ends@.len(),
            forall|j: int, k: int| 0 <= j < k < i ==> run_ends@[j] < run_ends@[k],
        decreases run_ends.len() - i,
    {
        if run_ends[i - 1] >= run_ends[i] {
            return false;
        }
        proof {
            assert forall|j: int, k: int| 0 <= j < k < i + 1 implies run_ends@[j] < run_ends@[k] by {
                if k == i && j < i - 1 {
                    assert(run_ends@[j] < run_ends@[i - 1]);
                }
            }
        }
        i += 1;
    }
    true
}

/// Does every row's range `offsets[r]..offsets[r] + sizes[r]` lie within
/// `0..=bound`?
fn view_ranges_ok(offsets: &Vec<usize>, sizes: &Vec<usize>, bound: usize) -> (r: bool)
    requires
        offsets@.len() == sizes@.len(),
    ensures
        r == forall|i: int| 0 <= i < offsets@.len() ==> offsets@[i] + sizes@[i] <= bound,
{
    let mut i: usize = 0;
    while i < offsets.len()
        invariant
            0 <= i <= offsets@.len(),
            offsets@.len() == sizes@.len(),
            forall|j: int| 0 <= j < i ==> offsets@[j] + sizes@[j] <= bound,
        decreases offsets.len() - i,
    {
        if offsets[i] > bound || sizes[i] > bound - offsets[i] {
            return false;
        }
        i += 1;
    }
    true
}

/// Does the number of nulls reachable through the rows of a list view fit a
/// `usize`?
fn view_nulls_fit(
    offsets: &Vec<usize>,
    sizes: &Vec<usize>,
    rows: &Option<Vec<bool>>,
    items: &Option<Vec<bool>>,
    bound: usize,
) -> (r: bool)
    requires
        offsets@.len() == sizes@.len(),
        validity_len(validity_view(rows), offsets@.len() as int),
        validity_len(validity_view(items), bound as int),
        forall|i: int| 0 <= i < offsets@.len() ==> offsets@[i] + sizes@[i] <= bound,
    ensures
        r == (view_reachable_nulls(
            offsets@,
            sizes@,
            validity_view(rows),
            validity_view(items),
            0,
            offsets@.len() as int,
        ) <= usize::MAX),
{
    let ghost rv = validity_view(rows);
    let ghost iv = validity_view(items);
    let mut total: usize = 0;
    let mut i: usize = 0;
    while i < offsets.len()
        invariant
            0 <= i <= offsets@.len(),
            offsets@.len() == sizes@.len(),
            rv == validity_view(rows),
            iv == validity_view(items),
            validity_len(rv, offsets@.len() as int),
            validity_len(iv, bound as int),
            forall|j: int| 0 <= j < offsets@.len() ==> offsets@[j] + sizes@[j] <= bound,
            total == view_reachable_nulls(offsets@, sizes@, rv, iv, 0, i as int),
        decreases offsets.len() - i,
    {
        let valid = match rows {
            Some(flags) => flags[i],
            None => true,
        };
        if valid {
            let count = nulls_in_exec(items, offsets[i], offsets[i] + sizes[i]);
            match total.checked_add(count) {
                Some(t) => {
                    total = t;
                },
                None => {
                    proof {
                        lemma_view_grows(offsets@, sizes@, rv, iv, i as int + 1, offsets@.len() as int);
                    }
                    return false;
                },
            }
        }
        i += 1;
    }
    true
}

proof fn lemma_view_grows(
    offsets: Seq<usize>,
    sizes: Seq<usize>,
    rows: Option<Seq<bool>>,
    items: Option<Seq<bool>>,
    mid: int,
    hi: int,
)
    requires
        0 <= mid <= hi,
    ensures
        view_reachable_nulls(offsets, sizes, rows, items, 0, mid) <= view_reachable_nulls(
            offsets,
            sizes,
            rows,
            items,
            0,
            hi,
        ),
{
    lemma_view_split(offsets, sizes, rows, items, 0, mid, hi);
}

/// Does the key of every valid row point into the value table?
fn keys_in_bounds(keys: &Vec<usize>, rows: &Option<Vec<bool>>, bound: usize) -> (r: bool)
    requires
        validity_len(validity_view(rows), keys@.len() as int),
    ensures
        r == forall|i: int| 0 <= i < keys@.len() && is_valid(validity_view(rows), i) ==> keys@[i] < bound,
{
    let mut i: usize = 0;
    while i < keys.len()
        invariant
            0 <= i <= keys@.len(),
            validity_len(validity_view(rows), keys@.len() as int),
            forall|j: int| 0 <= j < i && is_valid(validity_view(rows), j) ==> keys@[j] < bound,
        decreases keys.len() - i,
    {
        let valid = match rows {
            Some(flags) => flags[i],
            None => true,
        };
        if valid && keys[i] >= bound {
            assert(is_valid(validity_view(rows), i as int));
            return false;
        }
        i += 1;
    }
    true
}

/// Is the array well-formed for its own data type ([`array_ok`])?
pub fn array_is_ok(a: &ArrayLayout) -> (r: bool)
    ensures
        r == array_ok(a@),
    decreases *a,
{
    proof {
        lemma_layouts_view(a.children@);
        lemma_view_shape(a.data_type);
        assert(decreases_to!(*a => a.children@));
    }
    if !validity_has_len(&a.validity, a.len) {
        return false;
    }
    if a.offset > usize::MAX - a.len {
        return false;
    }
    match &a.data_type {
        DataType::List(f) | DataType::LargeList(f) => {
            if a.children.len() < 1 || a.offsets.len() == 0 || a.offsets.len() - 1 != a.len {
                return false;
            }
            proof {
                assert(decreases_to!(a.children@ => a.children@[0]));
            }
            let child = &a.children[0];
            offsets_are_ok(&a.offsets, child.len) && validity_has_len(&child.validity, child.len) && data_type_eq(
                &child.data_type,
                &f.data_type,
            ) && array_is_ok(child)
        },
        DataType::ListView(f) | DataType::LargeListView(f) => {
            if a.children.len() < 1 || a.offsets.len() != a.len || a.sizes.len() != a.len {
                return false;
            }
            proof {
                assert(decreases_to!(a.children@ => a.children@[0]));
            }
            let child = &a.children[0];
            if !view_ranges_ok(&a.offsets, &a.sizes, child.len) || !validity_has_len(&child.validity, child.len) {
                return false;
            }
            view_nulls_fit(&a.offsets, &a.sizes, &a.validity, &child.validity, child.len) && data_type_eq(
                &child.data_type,
                &f.data_type,
            ) && array_is_ok(child)
        },
        DataType::FixedSizeList(f, m) => {
            if a.children.len() < 1 || *m < 0 {
                return false;
            }
            proof {
                assert(decreases_to!(a.children@ => a.children@[0]));
            }
            let child = &a.children[0];
            let size = *m as usize;
            let fits = match a.len.checked_mul(size) {
                Some(span) => match a.offset.checked_add(span) {
                    Some(end) => end <= child.len,
                    None => false,
                },
                None => false,
            };
            fits && validity_has_len(&child.validity, child.len) && data_type_eq(&child.data_type, &f.data_type)
                && array_is_ok(child)
        },
        DataType::MapOf(entries, _) => {
            if a.children.len() < 2 || a.offsets.len() == 0 || a.offsets.len() - 1 != a.len {
                return false;
            }
            proof {
                assert(decreases_to!(a.children@ => a.children@[0]));
                assert(decreases_to!(a.children@ => a.children@[1]));
                lemma_view_shape(entries.data_type);
            }
            let keys = &a.children[0];
            let values = &a.children[1];
            if !offsets_are_ok(&a.offsets, keys.len) || values.len != keys.len || !validity_has_len(
                &keys.validity,
                keys.len,
            ) || !validity_has_len(&values.validity, values.len) {
                return false;
            }
            let types_ok = match &entries.data_type {
                DataType::Struct(fs) => {
                    proof {
                        lemma_fields_view(fs@);
                    }
                    fs.len() == 2 && data_type_eq(&keys.data_type, &fs[0].data_type) && data_type_eq(
                        &values.data_type,
                        &fs[1].data_type,
                    )
                },
                _ => false,
            };
            types_ok && array_is_ok(keys) && array_is_ok(values)
        },
        DataType::Dictionary(_, v) => {
            if a.children.len() < 1 || a.offsets.len() != a.len {
                return false;
            }
            proof {
                assert(decreases_to!(a.children@ => a.children@[0]));
            }
            let values = &a.children[0];
            validity_has_len(&values.validity, values.len) && keys_in_bounds(&a.offsets, &a.validity, values.len)
                && data_type_eq(&values.data_type, v) && array_is_ok(values)
        },
        DataType::RunEndEncoded(_, v) => {
            if a.children.len() < 1 || a.validity.is_some() || !run_ends_are_ok(&a.offsets) {
                return false;
            }
            proof {
                assert(decreases_to!(a.children@ => a.children@[0]));
            }
            let values = &a.children[0];
            if a.len > 0 && (a.offsets.len() == 0 || a.offset + a.len > a.offsets[a.offsets.len() - 1]) {
                return false;
            }
            values.len >= a.offsets.len() && validity_has_len(&values.validity, values.len) && data_type_eq(
                &values.data_type,
                &v.data_type,
            ) && array_is_ok(values)
        },
        _ => true,
    }
}

} // verus!
