//! Slicing: a zero-copy window `offset..offset + len` on the rows of an array.
//!
//! Slicing narrows the rows and leaves the children whole: a sliced list
//! keeps its items array and narrows its offsets, a sliced dictionary keeps
//! its value table and narrows its keys, a sliced run-end-encoded array keeps
//! its runs and moves its logical offset, and a sliced fixed-size list starts
//! its first row further into its items. A slice reaches a subset of the rows
//! it was taken from, so validation cannot fail on the slice of a valid array.

use vstd::prelude::*;

use crate::data_type::{DataType, DataTypeSpec};
use crate::layout::{
    array_ok, dict_nulls, downcast_nulls, fixed_nulls, fixed_shape_ok, item_check, layout_ok,
    layout_view, layouts_view, lemma_accepted_layout, lemma_layouts_view, list_nulls, run_nulls,
    spec_verdict, top_nulls, view_nulls, ArrayLayout, LayoutSpec,
};
use crate::logical::{spec_accepts, Logical};
use crate::nulls::{
    count_nulls, dict_referenced_nulls, fixed_offsets, is_valid, lemma_count_nulls_split,
    lemma_dict_split, lemma_list_split, lemma_run_split, lemma_view_split, list_reachable_nulls,
    offsets_ok, validity_len, validity_view, view_reachable_nulls,
};

verus! {

/// The validity of the rows `off..off + n`.
pub open spec fn sub_validity(v: Option<Seq<bool>>, off: int, n: int) -> Option<Seq<bool>> {
    match v {
        None => None,
        Some(s) => Some(s.subrange(off, off + n)),
    }
}

/// `b` is the slice `off..off + n` of the rows of `a`.
pub open spec fn is_slice_of(b: LayoutSpec, a: LayoutSpec, off: int, n: int) -> bool {
    &&& 0 <= off
    &&& 0 <= n
    &&& off + n <= a.len
    &&& b.data_type == a.data_type
    &&& b.len == n
    &&& b.validity == sub_validity(a.validity, off, n)
    &&& b.children == a.children
    &&& match a.data_type {
        DataTypeSpec::List(_) | DataTypeSpec::LargeList(_) | DataTypeSpec::MapOf(_, _) => b.offsets
            == a.offsets.subrange(off, off + n + 1) && b.sizes == a.sizes,
        DataTypeSpec::ListView(_) | DataTypeSpec::LargeListView(_) => b.offsets == a.offsets.subrange(
            off,
            off + n,
        ) && b.sizes == a.sizes.subrange(off, off + n),
        DataTypeSpec::Dictionary(_, _) => b.offsets == a.offsets.subrange(off, off + n) && b.sizes
            == a.sizes,
        _ => b.offsets == a.offsets && b.sizes == a.sizes,
    }
    &&& match a.data_type {
        DataTypeSpec::FixedSizeList(_, m) => b.offset == a.offset + off * m,
        _ => b.offset == a.offset + off,
    }
}

pub proof fn lemma_sub_validity(v: Option<Seq<bool>>, len: int, off: int, n: int)
    requires
        validity_len(v, len),
        0 <= off,
        0 <= n,
        off + n <= len,
    ensures
        validity_len(sub_validity(v, off, n), n),
        forall|r: int| 0 <= r < n ==> #[trigger] is_valid(sub_validity(v, off, n), r) == is_valid(v, off + r),
{
}

pub proof fn lemma_count_shift(v: Seq<bool>, off: int, n: int, lo: int, hi: int)
    requires
        0 <= off,
        0 <= lo <= hi <= n,
        off + n <= v.len(),
    ensures
        count_nulls(v.subrange(off, off + n), lo, hi) == count_nulls(v, off + lo, off + hi),
    decreases hi - lo,
{
    if hi > lo {
        lemma_count_shift(v, off, n, lo, hi - 1);
    }
}

/// The nulls of the rows of a slice are among the nulls of the rows sliced.
pub proof fn lemma_top_nulls_slice(b: LayoutSpec, a: LayoutSpec, off: int, n: int)
    requires
        validity_len(a.validity, a.len as int),
        is_slice_of(b, a, off, n),
    ensures
        top_nulls(b) <= top_nulls(a),
{
    if let Some(v) = a.validity {
        lemma_count_shift(v, off, n, 0, n);
        lemma_count_nulls_split(v, 0, off, a.len as int);
        lemma_count_nulls_split(v, off, off + n, a.len as int);
    }
}

pub proof fn lemma_list_shift(
    offsets: Seq<usize>,
    rows: Option<Seq<bool>>,
    items: Option<Seq<bool>>,
    len: int,
    off: int,
    n: int,
    hi: int,
)
    requires
        validity_len(rows, len),
        offsets.len() == len + 1,
        0 <= off,
        0 <= hi <= n,
        off + n <= len,
    ensures
        list_reachable_nulls(offsets.subrange(off, off + n + 1), sub_validity(rows, off, n), items, 0, hi)
            == list_reachable_nulls(offsets, rows, items, off, off + hi),
    decreases hi,
{
    if hi > 0 {
        lemma_list_shift(offsets, rows, items, len, off, n, hi - 1);
        lemma_sub_validity(rows, len, off, n);
    }
}

pub proof fn lemma_view_shift(
    offsets: Seq<usize>,
    sizes: Seq<usize>,
    rows: Option<Seq<bool>>,
    items: Option<Seq<bool>>,
    len: int,
    off: int,
    n: int,
    hi: int,
)
    requires
        validity_len(rows, len),
        offsets.len() == len,
        sizes.len() == len,
        0 <= off,
        0 <= hi <= n,
        off + n <= len,
    ensures
        view_reachable_nulls(
            offsets.subrange(off, off + n),
            sizes.subrange(off, off + n),
            sub_validity(rows, off, n),
            items,
            0,
            hi,
        ) == view_reachable_nulls(offsets, sizes, rows, items, off, off + hi),
    decreases hi,
{
    if hi > 0 {
        lemma_view_shift(offsets, sizes, rows, items, len, off, n, hi - 1);
        lemma_sub_validity(rows, len, off, n);
    }
}

pub proof fn lemma_fixed_shift(
    start: int,
    size: int,
    rows: Option<Seq<bool>>,
    items: Option<Seq<bool>>,
    len: int,
    off: int,
    n: int,
    hi: int,
)
    requires
        validity_len(rows, len),
        0 <= start,
        0 <= size,
        0 <= off,
        0 <= hi <= n,
        off + n <= len,
        start + len * size <= usize::MAX,
    ensures
        list_reachable_nulls(
            fixed_offsets(start + off * size, size, n),
            sub_validity(rows, off, n),
            items,
            0,
            hi,
        ) == list_reachable_nulls(fixed_offsets(start, size, len), rows, items, off, off + hi),
    decreases hi,
{
    if hi > 0 {
        lemma_fixed_shift(start, size, rows, items, len, off, n, hi - 1);
        lemma_sub_validity(rows, len, off, n);
        assert(start + off * size + (hi - 1) * size == start + (off + hi - 1) * size) by (nonlinear_arith);
        assert(start + off * size + hi * size == start + (off + hi) * size) by (nonlinear_arith);
    }
}

pub proof fn lemma_dict_shift(
    keys: Seq<usize>,
    rows: Option<Seq<bool>>,
    values: Option<Seq<bool>>,
    len: int,
    off: int,
    n: int,
    hi: int,
)
    requires
        validity_len(rows, len),
        keys.len() == len,
        0 <= off,
        0 <= hi <= n,
        off + n <= len,
    ensures
        dict_referenced_nulls(keys.subrange(off, off + n), sub_validity(rows, off, n), values, 0, hi)
            == dict_referenced_nulls(keys, rows, values, off, off + hi),
    decreases hi,
{
    if hi > 0 {
        lemma_dict_shift(keys, rows, values, len, off, n, hi - 1);
        lemma_sub_validity(rows, len, off, n);
    }
}

/// The reachable nulls of a slice's children are among those of the sliced
/// array's children.
pub proof fn lemma_child_nulls_slice(b: LayoutSpec, a: LayoutSpec, off: int, n: int)
    requires
        validity_len(a.validity, a.len as int),
        is_slice_of(b, a, off, n),
    ensures
        (a.data_type is List || a.data_type is LargeList || a.data_type is MapOf) && a.offsets.len() == a.len + 1
            && a.children.len() >= 1 ==> list_nulls(b, b.children[0]) <= list_nulls(a, a.children[0]),
        a.data_type is MapOf && a.offsets.len() == a.len + 1 && a.children.len() >= 2 ==> list_nulls(
            b,
            b.children[1],
        ) <= list_nulls(a, a.children[1]),
        (a.data_type is ListView || a.data_type is LargeListView) && a.offsets.len() == a.len
            && a.sizes.len() == a.len && a.children.len() >= 1 ==> view_nulls(b) <= view_nulls(a),
        a.data_type is Dictionary && a.offsets.len() == a.len && a.children.len() >= 1 ==> dict_nulls(b)
            <= dict_nulls(a),
        a.data_type is RunEndEncoded && a.children.len() >= 1 ==> run_nulls(b) <= run_nulls(a),
{
    let len = a.len as int;
    if (a.data_type is List || a.data_type is LargeList || a.data_type is MapOf) && a.offsets.len() == len + 1 {
        if a.children.len() >= 1 {
            lemma_list_shift(a.offsets, a.validity, a.children[0].validity, len, off, n, n);
            lemma_list_split(a.offsets, a.validity, a.children[0].validity, 0, off, len);
            lemma_list_split(a.offsets, a.validity, a.children[0].validity, off, off + n, len);
        }
        if a.children.len() >= 2 {
            lemma_list_shift(a.offsets, a.validity, a.children[1].validity, len, off, n, n);
            lemma_list_split(a.offsets, a.validity, a.children[1].validity, 0, off, len);
            lemma_list_split(a.offsets, a.validity, a.children[1].validity, off, off + n, len);
        }
    }
    if (a.data_type is ListView || a.data_type is LargeListView) && a.offsets.len() == len && a.sizes.len()
        == len && a.children.len() >= 1 {
        lemma_view_shift(a.offsets, a.sizes, a.validity, a.children[0].validity, len, off, n, n);
        lemma_view_split(a.offsets, a.sizes, a.validity, a.children[0].validity, 0, off, len);
        lemma_view_split(a.offsets, a.sizes, a.validity, a.children[0].validity, off, off + n, len);
    }
    if a.data_type is Dictionary && a.offsets.len() == len && a.children.len() >= 1 {
        lemma_dict_shift(a.offsets, a.validity, a.children[0].validity, len, off, n, n);
        lemma_dict_split(a.offsets, a.validity, a.children[0].validity, 0, off, len);
        lemma_dict_split(a.offsets, a.validity, a.children[0].validity, off, off + n, len);
    }
    if a.data_type is RunEndEncoded && a.children.len() >= 1 {
        let lo = a.offset as int;
        lemma_run_split(a.offsets, a.children[0].validity, lo, lo + off, lo + len);
        lemma_run_split(a.offsets, a.children[0].validity, lo + off, lo + off + n, lo + len);
    }
}


proof fn lemma_item_check_fewer(inner: Logical, ca: nat, cb: nat, rest: nat)
    requires
        item_check(inner, ca, rest) == 0,
        cb <= ca,
    ensures
        item_check(inner, cb, rest) == 0,
{
}

proof fn lemma_offsets_sub(offsets: Seq<usize>, bound: int, lo: int, hi: int)
    requires
        offsets_ok(offsets, bound),
        0 <= lo <= hi <= offsets.len(),
    ensures
        offsets_ok(offsets.subrange(lo, hi), bound),
{
    let s = offsets.subrange(lo, hi);
    assert forall|i: int, j: int| 0 <= i <= j < s.len() implies s[i] <= s[j] by {
        assert(s[i] == offsets[lo + i] && s[j] == offsets[lo + j]);
    }
}

/// Slicing an array that passes the checks below its top level keeps its
/// layout well-formed and passes them again.
proof fn lemma_slice_below(l: Logical, a: LayoutSpec, b: LayoutSpec, off: int, n: int)
    requires
        layout_ok(l, a),
        is_slice_of(b, a, off, n),
        spec_accepts(l, a.data_type),
        downcast_nulls(l, a) == 0,
    ensures
        layout_ok(l, b),
        downcast_nulls(l, b) == 0,
    decreases l,
{
    let len = a.len as int;
    lemma_sub_validity(a.validity, len, off, n);
    lemma_child_nulls_slice(b, a, off, n);
    match l {
        Logical::List(inner) | Logical::LargeList(inner) => {
            lemma_offsets_sub(a.offsets, a.children[0].len as int, off, off + n + 1);
            lemma_item_check_fewer(
                *inner,
                list_nulls(a, a.children[0]),
                list_nulls(b, b.children[0]),
                downcast_nulls(*inner, a.children[0]),
            );
        },
        Logical::ListView(inner) | Logical::LargeListView(inner) => {
            lemma_item_check_fewer(
                *inner,
                view_nulls(a),
                view_nulls(b),
                downcast_nulls(*inner, a.children[0]),
            );
            assert forall|r: int| 0 <= r < b.len implies b.offsets[r] + b.sizes[r] <= b.children[0].len by {
                assert(b.offsets[r] == a.offsets[off + r] && b.sizes[r] == a.sizes[off + r]);
            }
        },
        Logical::FixedSizeList(inner, m) => {
            lemma_fixed_slice(a, b, off, n, m as int);
            lemma_item_check_fewer(
                *inner,
                fixed_nulls(a, m as int),
                fixed_nulls(b, m as int),
                downcast_nulls(*inner, a.children[0]),
            );
        },
        Logical::AnyList(inner) => match a.data_type {
            DataTypeSpec::List(_) | DataTypeSpec::LargeList(_) => {
                lemma_offsets_sub(a.offsets, a.children[0].len as int, off, off + n + 1);
                lemma_item_check_fewer(
                    *inner,
                    list_nulls(a, a.children[0]),
                    list_nulls(b, b.children[0]),
                    downcast_nulls(*inner, a.children[0]),
                );
            },
            DataTypeSpec::ListView(_) | DataTypeSpec::LargeListView(_) => {
                lemma_item_check_fewer(
                    *inner,
                    view_nulls(a),
                    view_nulls(b),
                    downcast_nulls(*inner, a.children[0]),
                );
                assert forall|r: int| 0 <= r < b.len implies b.offsets[r] + b.sizes[r]
                    <= b.children[0].len by {
                    assert(b.offsets[r] == a.offsets[off + r] && b.sizes[r] == a.sizes[off + r]);
                }
            },
            DataTypeSpec::FixedSizeList(_, m) => {
                lemma_fixed_slice(a, b, off, n, m as int);
                lemma_item_check_fewer(
                    *inner,
                    fixed_nulls(a, m as int),
                    fixed_nulls(b, m as int),
                    downcast_nulls(*inner, a.children[0]),
                );
            },
            _ => {},
        },
        Logical::MapOf(k, v) => {
            lemma_offsets_sub(a.offsets, a.children[0].len as int, off, off + n + 1);
            let rest = if downcast_nulls(*k, a.children[0]) > 0 {
                downcast_nulls(*k, a.children[0])
            } else {
                downcast_nulls(*v, a.children[1])
            };
            lemma_item_check_fewer(*v, list_nulls(a, a.children[1]), list_nulls(b, b.children[1]), rest);
            lemma_item_check_fewer(
                *k,
                list_nulls(a, a.children[0]),
                list_nulls(b, b.children[0]),
                item_check(*v, list_nulls(b, b.children[1]), rest),
            );
        },
        Logical::Dictionary(_, v) => {
            lemma_item_check_fewer(*v, dict_nulls(a), dict_nulls(b), downcast_nulls(*v, a.children[0]));
            assert forall|r: int| 0 <= r < b.len && is_valid(b.validity, r) implies b.offsets[r]
                < b.children[0].len by {
                assert(b.offsets[r] == a.offsets[off + r]);
            }
        },
        Logical::Run(_, v) => {
            lemma_item_check_fewer(*v, run_nulls(a), run_nulls(b), downcast_nulls(*v, a.children[0]));
        },
        Logical::Nullable(inner) | Logical::IgnoreValidity(inner) => {
            lemma_slice_below(*inner, a, b, off, n);
        },
        _ => {},
    }
}

proof fn lemma_fixed_slice(a: LayoutSpec, b: LayoutSpec, off: int, n: int, m: int)
    requires
        fixed_shape_ok(a, m),
        0 <= off,
        0 <= n,
        off + n <= a.len,
        b.offset == a.offset + off * m,
        b.len == n,
        b.children == a.children,
        validity_len(a.validity, a.len as int),
        b.validity == sub_validity(a.validity, off, n),
    ensures
        fixed_shape_ok(b, m),
        fixed_nulls(b, m) <= fixed_nulls(a, m),
{
    let len = a.len as int;
    let items = a.children[0].validity;
    lemma_sub_validity(a.validity, len, off, n);
    lemma_fixed_shift(a.offset as int, m, a.validity, items, len, off, n, n);
    let offs = fixed_offsets(a.offset as int, m, len);
    lemma_list_split(offs, a.validity, items, 0, off, len);
    lemma_list_split(offs, a.validity, items, off, off + n, len);
    assert(off * m + n * m == (off + n) * m) by (nonlinear_arith);
    assert((off + n) * m <= a.len * m) by (nonlinear_arith)
        requires
            off + n <= a.len,
            0 <= m,
    ;
}

/// A slice of a well-formed array is well-formed.
pub proof fn lemma_slice_array_ok(a: LayoutSpec, b: LayoutSpec, off: int, n: int)
    requires
        array_ok(a),
        is_slice_of(b, a, off, n),
    ensures
        array_ok(b),
{
    let len = a.len as int;
    lemma_sub_validity(a.validity, len, off, n);
    lemma_child_nulls_slice(b, a, off, n);
    match a.data_type {
        DataTypeSpec::List(_) | DataTypeSpec::LargeList(_) | DataTypeSpec::MapOf(_, _) => {
            lemma_offsets_sub(a.offsets, a.children[0].len as int, off, off + n + 1);
        },
        DataTypeSpec::ListView(_) | DataTypeSpec::LargeListView(_) => {
            assert forall|r: int| 0 <= r < b.len implies b.offsets[r] + b.sizes[r] <= b.children[0].len by {
                assert(b.offsets[r] == a.offsets[off + r] && b.sizes[r] == a.sizes[off + r]);
            }
        },
        DataTypeSpec::FixedSizeList(_, m) => {
            lemma_fixed_slice(a, b, off, n, m as int);
            if m >= 1 {
                assert(n <= n * m) by (nonlinear_arith)
                    requires
                        m >= 1,
                        n >= 0,
                ;
            } else {
                assert(off * m == 0) by (nonlinear_arith)
                    requires
                        m == 0,
                ;
            }
        },
        DataTypeSpec::Dictionary(_, _) => {
            assert forall|r: int| 0 <= r < b.len && is_valid(b.validity, r) implies b.offsets[r]
                < b.children[0].len by {
                assert(b.offsets[r] == a.offsets[off + r]);
            }
        },
        _ => {},
    }
    assert(b.offset + b.len <= usize::MAX);
}

/// A slice of a valid array is valid: a window of the rows reaches no null
/// the whole array does not reach, and the children are shared unchanged.
pub proof fn lemma_slice_keeps_valid(l: Logical, a: LayoutSpec, b: LayoutSpec, off: int, n: int)
    requires
        array_ok(a),
        spec_verdict(l, a) is Valid,
        is_slice_of(b, a, off, n),
    ensures
        array_ok(b),
        spec_verdict(l, b) is Valid,
{
    lemma_accepted_layout(l, a);
    lemma_slice_array_ok(a, b, off, n);
    lemma_slice_below(l, a, b, off, n);
    lemma_top_nulls_slice(b, a, off, n);
}

fn copy_range<T: Copy>(v: &Vec<T>, lo: usize, hi: usize) -> (r: Vec<T>)
    requires
        lo <= hi <= v@.len(),
    ensures
        r@ == v@.subrange(lo as int, hi as int),
{
    let mut out: Vec<T> = Vec::new();
    let mut i: usize = lo;
    while i < hi
        invariant
            lo <= i <= hi <= v@.len(),
            out@ == v@.subrange(lo as int, i as int),
        decreases hi - i,
    {
        out.push(v[i]);
        i += 1;
    }
    out
}

pub(crate) fn copy_validity(v: &Option<Vec<bool>>, lo: usize, hi: usize) -> (r: Option<Vec<bool>>)
    requires
        validity_len(validity_view(v), hi as int) || (v matches Some(x) && hi <= x@.len()),
        lo <= hi,
    ensures
        validity_view(&r) == sub_validity(validity_view(v), lo as int, (hi - lo) as int),
{
    match v {
        Some(x) => Some(copy_range(x, lo, hi)),
        None => None,
    }
}

impl ArrayLayout {
    /// A copy of this layout, children included.
    pub fn duplicate(&self) -> (r: ArrayLayout)
        ensures
            r@ == self@,
        decreases *self,
    {
        let mut children: Vec<ArrayLayout> = Vec::new();
        let mut i: usize = 0;
        while i < self.children.len()
            invariant
                0 <= i <= self.children@.len(),
                children@.len() == i,
                decreases_to!(*self => self.children@),
                forall|j: int| 0 <= j < i ==> #[trigger] layout_view(children@[j]) == layout_view(
                    self.children@[j],
                ),
            decreases self.children.len() - i,
        {
            proof {
                assert(decreases_to!(self.children@ => self.children@[i as int]));
            }
            let c = self.children[i].duplicate();
            children.push(c);
            i += 1;
        }
        proof {
            lemma_layouts_view(children@);
            lemma_layouts_view(self.children@);
            assert(layouts_view(children@) =~= layouts_view(self.children@));
        }
        let validity = match &self.validity {
            Some(v) => Some(copy_range(v, 0, v.len())),
            None => None,
        };
        proof {
            if let Some(v) = validity_view(&self.validity) {
                assert(v.subrange(0, v.len() as int) =~= v);
            }
        }
        let offsets = copy_range(&self.offsets, 0, self.offsets.len());
        let sizes = copy_range(&self.sizes, 0, self.sizes.len());
        assert(self.offsets@.subrange(0, self.offsets@.len() as int) =~= self.offsets@);
        assert(self.sizes@.subrange(0, self.sizes@.len() as int) =~= self.sizes@);
        ArrayLayout {
            data_type: self.data_type.duplicate(),
            len: self.len,
            validity,
            offsets,
            sizes,
            offset: self.offset,
            children,
        }
    }
}

/// The rows `offset..offset + length` of a well-formed array: the children
/// are kept whole, and the offsets, keys, or logical offset move to the window.
pub fn slice_layout(a: &ArrayLayout, offset: usize, length: usize) -> (b: ArrayLayout)
    requires
        array_ok(a@),
        offset + length <= a.len,
    ensures
        is_slice_of(b@, a@, offset as int, length as int),
{
    let mut b = a.duplicate();
    proof {
        lemma_layouts_view(a.children@);
        crate::data_type::lemma_view_shape(a.data_type);
    }
    b.len = length;
    b.validity = copy_validity(&a.validity, offset, offset + length);
    match &a.data_type {
        DataType::List(_) | DataType::LargeList(_) | DataType::MapOf(_, _) => {
            let count = a.offsets.len();
            assert(count == a.len + 1);
            b.offsets = copy_range(&a.offsets, offset, offset + length + 1);
        },
        DataType::ListView(_) | DataType::LargeListView(_) => {
            b.offsets = copy_range(&a.offsets, offset, offset + length);
            b.sizes = copy_range(&a.sizes, offset, offset + length);
        },
        DataType::FixedSizeList(_, m) => {
            let size = *m as usize;
            proof {
                let ghost mm = size as int;
                assert(offset * mm <= a.len * mm) by (nonlinear_arith)
                    requires
                        offset <= a.len,
                        0 <= mm,
                ;
            }
            b.offset = a.offset + offset * size;
        },
        DataType::Dictionary(_, _) => {
            b.offsets = copy_range(&a.offsets, offset, offset + length);
        },
        _ => {},
    }
    match &a.data_type {
        DataType::FixedSizeList(_, _) => {},
        _ => {
            b.offset = a.offset + offset;
        },
    }
    b
}

} // verus!
