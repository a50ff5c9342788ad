//! [`TypedArray<L>`]: an array validated once against the logical type `L`.
//!
//! The array's layout is checked at construction (its data type, then the
//! reachable nulls at every level `L` declares non-nullable); afterwards the
//! type invariant carries the outcome, so reading never fails and slicing
//! never re-validates.

use std::marker::PhantomData;

use vstd::prelude::*;

use crate::error::ColumnError;
use crate::cursor::{positions, ListValue, MapValue, TypedArrayIter};
use crate::data_type::{DataType, DataTypeSpec};
use crate::layout::{
    array_ok, dict_nulls, downcast_nulls, fixed_nulls, fixed_shape_ok, item_check,
    lemma_accepted_layout, lemma_layouts_view, lemma_optional_verdict, lemma_required_verdict,
    list_nulls, run_nulls, run_shape_ok, spec_verdict, top_nulls, validate, verdict_of, view_nulls,
    ArrayLayout, LayoutSpec,
};
use crate::logical::{optional_of, required_of, spec_accepts, spec_rejects_nulls, Logical};
use crate::markers::{ConcreteType, LogicalType};
use crate::logical::{is_concrete, spec_data_type};
use crate::nulls::{
    count_nulls, dict_referenced_nulls, entry_null, fixed_offsets, is_valid, lemma_dict_split,
    lemma_list_split, lemma_run_split, lemma_view_split, list_reachable_nulls, nulls_in,
    nulls_in_exec, physical_index, run_ends_ok, run_logical_nulls, run_of, view_reachable_nulls,
};
use crate::slicing::{is_slice_of, lemma_slice_keeps_valid, lemma_sub_validity, slice_layout};

verus! {

/// Is the value at row `i` of an array of logical type `l` null?
///
/// `IgnoreValidity` never reads as null; a run-end-encoded array reads the
/// value of the run its row falls in; every other type reads its own
/// validity (for a dictionary, the validity of its keys).
pub open spec fn spec_is_null(l: Logical, a: LayoutSpec, i: int) -> bool
    decreases l,
{
    match l {
        Logical::IgnoreValidity(_) => false,
        Logical::Nullable(inner) => spec_is_null(*inner, a, i),
        Logical::Run(_, v) => spec_is_null(*v, a.children[0], run_of(a.offsets, a.offset + i, 0)),
        _ => !is_valid(a.validity, i),
    }
}

/// Does the logical type read each row as a list of items?
pub open spec fn is_list_like(l: Logical) -> bool
    decreases l,
{
    match l {
        Logical::List(_) | Logical::LargeList(_) | Logical::ListView(_) | Logical::LargeListView(_)
        | Logical::FixedSizeList(_, _) | Logical::AnyList(_) => true,
        Logical::Nullable(inner) | Logical::IgnoreValidity(inner) => is_list_like(*inner),
        _ => false,
    }
}

/// The items (for a list type) or entries (for a map type) of row `i`: the
/// range `start..end` of positions in the child array.
pub open spec fn item_range(l: Logical, a: LayoutSpec, i: int) -> (int, int)
    decreases l,
{
    match l {
        Logical::Nullable(inner) | Logical::IgnoreValidity(inner) => item_range(*inner, a, i),
        Logical::List(_) | Logical::LargeList(_) | Logical::MapOf(_, _) => (
            a.offsets[i] as int,
            a.offsets[i + 1] as int,
        ),
        Logical::ListView(_) | Logical::LargeListView(_) => (
            a.offsets[i] as int,
            a.offsets[i] + a.sizes[i],
        ),
        Logical::FixedSizeList(_, n) => (a.offset + i * n, a.offset + (i + 1) * n),
        Logical::AnyList(_) => match a.data_type {
            DataTypeSpec::List(_) | DataTypeSpec::LargeList(_) => (
                a.offsets[i] as int,
                a.offsets[i + 1] as int,
            ),
            DataTypeSpec::ListView(_) | DataTypeSpec::LargeListView(_) => (
                a.offsets[i] as int,
                a.offsets[i] + a.sizes[i],
            ),
            DataTypeSpec::FixedSizeList(_, m) => (a.offset + i * m, a.offset + (i + 1) * m),
            _ => (0, 0),
        },
        _ => (0, 0),
    }
}

/// Does the logical type read each row as the entries of a map?
pub open spec fn is_map_like(l: Logical) -> bool
    decreases l,
{
    match l {
        Logical::MapOf(_, _) => true,
        Logical::Nullable(inner) | Logical::IgnoreValidity(inner) => is_map_like(*inner),
        _ => false,
    }
}

/// Does the logical type read its values through a values child: a
/// dictionary (by key) or a run-end encoding (by run)?
pub open spec fn is_indirect(l: Logical) -> bool
    decreases l,
{
    match l {
        Logical::Dictionary(_, _) | Logical::Run(_, _) => true,
        Logical::Nullable(inner) | Logical::IgnoreValidity(inner) => is_indirect(*inner),
        _ => false,
    }
}

/// Where the value of row `i` of a dictionary or run-end-encoded array
/// lives in its values child: the row's key, or the run its logical
/// position falls in.
pub open spec fn value_position(l: Logical, a: LayoutSpec, i: int) -> int
    decreases l,
{
    match l {
        Logical::Nullable(inner) | Logical::IgnoreValidity(inner) => value_position(*inner, a, i),
        Logical::Dictionary(_, _) => a.offsets[i] as int,
        Logical::Run(_, _) => run_of(a.offsets, a.offset + i, 0),
        _ => 0,
    }
}

fn fixed_range(offset: usize, i: usize, n: usize, len: usize, child_len: usize) -> (r: (usize, usize))
    requires
        i < len,
        offset + len * n <= child_len,
    ensures
        r.0 == offset + i * n,
        r.1 == offset + (i + 1) * n,
        r.0 <= r.1 <= child_len,
{
    proof {
        assert((i + 1) * n <= len * n) by (nonlinear_arith)
            requires
                i + 1 <= len,
        ;
        assert(i * n <= (i + 1) * n) by (nonlinear_arith);
        assert((i + 1) * n == i * n + n) by (nonlinear_arith);
    }
    let start = offset + i * n;
    (start, start + n)
}

fn item_range_at(l: &Logical, a: &ArrayLayout, i: usize) -> (r: (usize, usize))
    requires
        array_ok(a@),
        spec_accepts(*l, a@.data_type),
        is_list_like(*l) || is_map_like(*l),
        i < a@.len,
    ensures
        r.0 == item_range(*l, a@, i as int).0,
        r.1 == item_range(*l, a@, i as int).1,
        r.0 <= r.1 <= a@.children[0].len,
    decreases *l,
{
    proof {
        lemma_layouts_view(a.children@);
        crate::data_type::lemma_view_shape(a.data_type);
        lemma_accepted_layout(*l, a@);
    }
    match l {
        Logical::Nullable(inner) | Logical::IgnoreValidity(inner) => item_range_at(inner, a, i),
        Logical::List(_) | Logical::LargeList(_) | Logical::MapOf(_, _) => {
            (a.offsets[i], a.offsets[i + 1])
        },
        Logical::ListView(_) | Logical::LargeListView(_) => (a.offsets[i], a.offsets[i] + a.sizes[i]),
        Logical::FixedSizeList(_, n) => fixed_range(a.offset, i, *n, a.len, a.children[0].len),
        Logical::AnyList(_) => match &a.data_type {
            DataType::List(_) | DataType::LargeList(_) => (a.offsets[i], a.offsets[i + 1]),
            DataType::ListView(_) | DataType::LargeListView(_) => (
                a.offsets[i],
                a.offsets[i] + a.sizes[i],
            ),
            DataType::FixedSizeList(_, m) => fixed_range(a.offset, i, *m as usize, a.len, a.children[0].len),
            _ => (0, 0),
        },
        _ => (0, 0),
    }
}

fn value_position_at(l: &Logical, a: &ArrayLayout, i: usize) -> (r: usize)
    requires
        array_ok(a@),
        spec_accepts(*l, a@.data_type),
        is_indirect(*l),
        i < a@.len,
    ensures
        r == value_position(*l, a@, i as int),
    decreases *l,
{
    proof {
        lemma_accepted_layout(*l, a@);
    }
    match l {
        Logical::Nullable(inner) | Logical::IgnoreValidity(inner) => value_position_at(inner, a, i),
        Logical::Dictionary(_, _) => a.offsets[i],
        Logical::Run(_, _) => physical_index(&a.offsets, a.offset + i),
        _ => 0,
    }
}

/// An array validated against the logical type `L`.
#[derive(Debug)]
pub struct TypedArray<L: LogicalType> {
    layout: ArrayLayout,
    logical_type: PhantomData<L>,
}

impl<L: LogicalType> View for TypedArray<L> {
    type V = LayoutSpec;

    closed spec fn view(&self) -> LayoutSpec {
        self.layout@
    }
}

impl<L: LogicalType> TypedArray<L> {
    #[verifier::type_invariant]
    spec fn valid(self) -> bool {
        &&& array_ok(self.layout@)
        &&& spec_verdict(L::spec_logical(), self.layout@) is Valid
    }

    /// Validates the array against `L`: its data type (including the inner
    /// types of nested arrays) first, then the nulls below the top level,
    /// then the nulls of the rows themselves.
    pub fn try_new(layout: ArrayLayout) -> (r: Result<Self, ColumnError>)
        requires
            array_ok(layout@),
        ensures
            match r {
                Ok(t) => t@ == layout@ && spec_verdict(L::spec_logical(), layout@) is Valid,
                Err(e) => verdict_of(Err(e), L::spec_logical(), layout@),
            },
    {
        let l = L::logical();
        match validate(&l, &layout) {
            Ok(()) => Ok(TypedArray { layout, logical_type: PhantomData }),
            Err(e) => Err(e),
        }
    }

    /// The validated layout.
    pub fn layout(&self) -> (r: &ArrayLayout)
        ensures
            r@ == self@,
            array_ok(r@),
            spec_verdict(L::spec_logical(), r@) is Valid,
    {
        proof {
            use_type_invariant(self);
        }
        &self.layout
    }

    /// The validated layout, moved out.
    pub fn into_layout(self) -> (r: ArrayLayout)
        ensures
            r@ == self@,
            array_ok(r@),
            spec_verdict(L::spec_logical(), r@) is Valid,
    {
        proof {
            use_type_invariant(&self);
        }
        self.layout
    }

    /// The number of rows.
    pub fn len(&self) -> (r: usize)
        ensures
            r == self@.len,
    {
        self.layout.len
    }

    /// Are there no rows?
    pub fn is_empty(&self) -> (r: bool)
        ensures
            r == (self@.len == 0),
    {
        self.layout.len == 0
    }

    /// Is the value at `index` null? (Never, for a type that rejects nulls at
    /// this level.)
    pub fn is_null(&self, index: usize) -> (r: bool)
        requires
            index < self@.len,
        ensures
            r == spec_is_null(L::spec_logical(), self@, index as int),
    {
        proof {
            use_type_invariant(self);
        }
        let l = L::logical();
        is_null_at(&l, &self.layout, index)
    }

    /// The items of row `index` of a list array.
    pub fn list_value(&self, index: usize) -> (r: ListValue)
        requires
            is_list_like(L::spec_logical()),
            index < self@.len,
        ensures
            r@ == positions(
                item_range(L::spec_logical(), self@, index as int).0 as usize,
                item_range(L::spec_logical(), self@, index as int).1 as usize,
            ),
            item_range(L::spec_logical(), self@, index as int).1 <= self@.children[0].len,
    {
        proof {
            use_type_invariant(self);
        }
        let l = L::logical();
        let (start, end) = item_range_at(&l, &self.layout, index);
        ListValue::new(start, end)
    }

    /// The entries of row `index` of a map array.
    pub fn map_value(&self, index: usize) -> (r: MapValue)
        requires
            is_map_like(L::spec_logical()),
            index < self@.len,
        ensures
            r@ == positions(
                item_range(L::spec_logical(), self@, index as int).0 as usize,
                item_range(L::spec_logical(), self@, index as int).1 as usize,
            ),
            item_range(L::spec_logical(), self@, index as int).1 <= self@.children[0].len,
    {
        proof {
            use_type_invariant(self);
        }
        let l = L::logical();
        let (start, end) = item_range_at(&l, &self.layout, index);
        MapValue::new(start, end)
    }

    /// Where the value of row `index` of a dictionary or run-end-encoded
    /// array lives in its values child.
    pub fn value_position(&self, index: usize) -> (r: usize)
        requires
            is_indirect(L::spec_logical()),
            index < self@.len,
        ensures
            r == value_position(L::spec_logical(), self@, index as int),
    {
        proof {
            use_type_invariant(self);
        }
        let l = L::logical();
        value_position_at(&l, &self.layout, index)
    }

    /// The position of row `index` in the array's buffers: where a leaf
    /// array holds the row's value.
    pub fn value_index(&self, index: usize) -> (r: usize)
        requires
            index < self@.len,
        ensures
            r == self@.offset + index,
    {
        proof {
            use_type_invariant(self);
        }
        self.layout.offset + index
    }

    /// The rows, front to back.
    pub fn iter(&self) -> (r: TypedArrayIter)
        ensures
            r@ == positions(0, self@.len),
    {
        TypedArrayIter::new(self.layout.len)
    }

    /// The same array, read as nullable: free, since a nullable type accepts
    /// every array its non-nullable form accepts.
    pub fn into_optional(self) -> (r: TypedArray<L::Optional>) where L::Optional: LogicalType
        requires
            <L::Optional as LogicalType>::spec_logical() == optional_of(L::spec_logical()),
        ensures
            r@ == self@,
    {
        proof {
            use_type_invariant(&self);
            lemma_optional_verdict(L::spec_logical(), self.layout@);
        }
        TypedArray { layout: self.layout, logical_type: PhantomData }
    }

    /// The same array, read as non-nullable: only the rows' own nulls need
    /// checking, the levels below were checked when the array was taken in.
    pub fn try_into_required(self) -> (r: Result<TypedArray<L::Required>, ColumnError>) where
        L::Required: LogicalType,
        requires
            <L::Required as LogicalType>::spec_logical() == required_of(L::spec_logical()),
        ensures
            match r {
                Ok(t) => t@ == self@ && top_nulls(self@) == 0,
                Err(ColumnError::UnexpectedNulls { null_count }) => null_count == top_nulls(self@)
                    && null_count > 0,
                Err(_) => false,
            },
    {
        proof {
            use_type_invariant(&self);
            lemma_optional_verdict(L::spec_logical(), self.layout@);
            lemma_required_verdict(L::spec_logical(), self.layout@);
        }
        let null_count = nulls_in_exec(&self.layout.validity, 0, self.layout.len);
        if null_count > 0 {
            return Err(ColumnError::UnexpectedNulls { null_count });
        }
        Ok(TypedArray { layout: self.layout, logical_type: PhantomData })
    }

    /// The rows `offset..offset + length`, without re-validating: a slice of
    /// a valid array is valid.
    pub fn slice(&self, offset: usize, length: usize) -> (r: Self)
        requires
            offset + length <= self@.len,
        ensures
            is_slice_of(r@, self@, offset as int, length as int),
    {
        proof {
            use_type_invariant(self);
        }
        let layout = slice_layout(&self.layout, offset, length);
        proof {
            lemma_slice_keeps_valid(L::spec_logical(), self.layout@, layout@, offset as int, length as int);
        }
        TypedArray { layout, logical_type: PhantomData }
    }
}

fn is_null_at(l: &Logical, a: &ArrayLayout, i: usize) -> (r: bool)
    requires
        array_ok(a@),
        spec_accepts(*l, a@.data_type),
        i < a@.len,
    ensures
        r == spec_is_null(*l, a@, i as int),
    decreases *l,
{
    proof {
        lemma_layouts_view(a.children@);
        lemma_accepted_layout(*l, a@);
    }
    match l {
        Logical::IgnoreValidity(_) => false,
        Logical::Nullable(inner) => is_null_at(inner, a, i),
        Logical::Run(_, v) => {
            let k = physical_index(&a.offsets, a.offset + i);
            is_null_at(v, &a.children[0], k)
        },
        _ => match &a.validity {
            Some(v) => !v[i],
            None => false,
        },
    }
}

/// Can a value read at this level be null? Only under `Option`, or through
/// a run-end encoding of nullable values.
pub open spec fn can_read_null(l: Logical) -> bool
    decreases l,
{
    match l {
        Logical::Nullable(_) => true,
        Logical::Run(_, v) => can_read_null(*v),
        _ => false,
    }
}

/// The array passes every check below its top level: it is well-formed, its
/// data type is accepted, and no level below the rows holds an unexpected
/// null.
pub open spec fn checked(l: Logical, a: LayoutSpec) -> bool {
    &&& array_ok(a)
    &&& spec_accepts(l, a.data_type)
    &&& downcast_nulls(l, a) == 0
}

/// The item type of a list type.
pub open spec fn list_item(l: Logical) -> Logical
    decreases l,
{
    match l {
        Logical::Nullable(inner) | Logical::IgnoreValidity(inner) => list_item(*inner),
        Logical::List(inner) | Logical::LargeList(inner) | Logical::ListView(inner)
        | Logical::LargeListView(inner) | Logical::FixedSizeList(inner, _) | Logical::AnyList(inner) => *inner,
        _ => l,
    }
}

proof fn lemma_count_zero(v: Seq<bool>, lo: int, hi: int, j: int)
    requires
        count_nulls(v, lo, hi) == 0,
        lo <= j < hi,
    ensures
        v[j],
    decreases hi - lo,
{
    if j < hi - 1 {
        lemma_count_zero(v, lo, hi - 1, j);
    }
}

proof fn lemma_nulls_in_zero(validity: Option<Seq<bool>>, lo: int, hi: int, j: int)
    requires
        nulls_in(validity, lo, hi) == 0,
        lo <= j < hi,
    ensures
        is_valid(validity, j),
{
    if let Some(v) = validity {
        lemma_count_zero(v, lo, hi, j);
    }
}

proof fn lemma_list_row_zero(
    offsets: Seq<usize>,
    rows: Option<Seq<bool>>,
    items: Option<Seq<bool>>,
    n: int,
    i: int,
)
    requires
        list_reachable_nulls(offsets, rows, items, 0, n) == 0,
        0 <= i < n,
        is_valid(rows, i),
    ensures
        nulls_in(items, offsets[i] as int, offsets[i + 1] as int) == 0,
{
    lemma_list_split(offsets, rows, items, 0, i, n);
    lemma_list_split(offsets, rows, items, i, i + 1, n);
}

proof fn lemma_view_row_zero(
    offsets: Seq<usize>,
    sizes: Seq<usize>,
    rows: Option<Seq<bool>>,
    items: Option<Seq<bool>>,
    n: int,
    i: int,
)
    requires
        view_reachable_nulls(offsets, sizes, rows, items, 0, n) == 0,
        0 <= i < n,
        is_valid(rows, i),
    ensures
        nulls_in(items, offsets[i] as int, offsets[i] + sizes[i]) == 0,
{
    lemma_view_split(offsets, sizes, rows, items, 0, i, n);
    lemma_view_split(offsets, sizes, rows, items, i, i + 1, n);
}

proof fn lemma_dict_row_zero(keys: Seq<usize>, rows: Option<Seq<bool>>, values: Option<Seq<bool>>, n: int, i: int)
    requires
        dict_referenced_nulls(keys, rows, values, 0, n) == 0,
        0 <= i < n,
        is_valid(rows, i),
    ensures
        !entry_null(values, keys[i] as int),
{
    lemma_dict_split(keys, rows, values, 0, i, n);
    lemma_dict_split(keys, rows, values, i, i + 1, n);
}

proof fn lemma_run_position_zero(run_ends: Seq<usize>, values: Option<Seq<bool>>, lo: int, hi: int, p: int)
    requires
        run_logical_nulls(run_ends, values, lo, hi) == 0,
        lo <= p < hi,
    ensures
        !entry_null(values, run_of(run_ends, p, 0)),
{
    lemma_run_split(run_ends, values, lo, p, hi);
    lemma_run_split(run_ends, values, p, p + 1, hi);
}

proof fn lemma_item_check_zero(inner: Logical, count: nat, rest: nat)
    requires
        item_check(inner, count, rest) == 0,
    ensures
        rest == 0,
        spec_rejects_nulls(inner) ==> count == 0,
{
}

/// A value read at a level that cannot hold nulls is not null, once the
/// checks below the top level pass and the row itself is valid.
pub proof fn lemma_value_not_null(l: Logical, a: LayoutSpec, i: int)
    requires
        checked(l, a),
        !can_read_null(l),
        0 <= i < a.len,
        spec_rejects_nulls(l) ==> is_valid(a.validity, i),
    ensures
        !spec_is_null(l, a, i),
    decreases l,
{
    if let Logical::Run(_, v) = l {
        lemma_accepted_layout(l, a);
        let child = a.children[0];
        let k = run_of(a.offsets, a.offset + i, 0);
        lemma_item_check_zero(*v, run_nulls(a), downcast_nulls(*v, child));
        assert(run_shape_ok(a));
        lemma_run_of_first_bound(a.offsets, a.offset + i);
        assert(k < a.offsets.len());
        if spec_rejects_nulls(*v) {
            lemma_run_position_zero(a.offsets, child.validity, a.offset as int, a.offset + a.len, a.offset + i);
        }
        lemma_value_not_null(*v, child, k);
    }
}

proof fn lemma_run_of_first_bound(run_ends: Seq<usize>, p: int)
    requires
        run_ends_ok(run_ends),
        run_ends.len() > 0,
        p < run_ends.last(),
    ensures
        0 <= run_of(run_ends, p, 0) < run_ends.len(),
{
    lemma_run_of_bound(run_ends, p, 0);
}

proof fn lemma_run_of_bound(run_ends: Seq<usize>, p: int, j: int)
    requires
        run_ends.len() > 0,
        p < run_ends.last(),
        0 <= j < run_ends.len(),
    ensures
        j <= run_of(run_ends, p, j) < run_ends.len(),
    decreases run_ends.len() - j,
{
    if run_ends[j] <= p {
        lemma_run_of_bound(run_ends, p, j + 1);
    }
}

/// A valid array passes the checks below its top level, and a type that
/// rejects nulls at the top finds every row valid.
pub proof fn lemma_valid_checked(l: Logical, a: LayoutSpec, i: int)
    requires
        array_ok(a),
        spec_verdict(l, a) is Valid,
        0 <= i < a.len,
    ensures
        checked(l, a),
        spec_rejects_nulls(l) ==> is_valid(a.validity, i),
{
    if spec_rejects_nulls(l) {
        lemma_nulls_in_zero(a.validity, 0, a.len as int, i);
    }
}

/// Non-`Option` levels are null-free: in a valid array of a type that reads
/// no null at the top, no row reads as null.
pub proof fn lemma_valid_rows_not_null(l: Logical, a: LayoutSpec, i: int)
    requires
        array_ok(a),
        spec_verdict(l, a) is Valid,
        !can_read_null(l),
        0 <= i < a.len,
    ensures
        !spec_is_null(l, a, i),
{
    lemma_valid_checked(l, a, i);
    lemma_value_not_null(l, a, i);
}

/// The items of a valid row of a checked list array pass the checks of the
/// item type, and each item slot is valid where the item type rejects nulls:
/// so, by [`lemma_value_not_null`], no item of a non-`Option` item type reads
/// as null, at any depth.
pub proof fn lemma_list_items_checked(l: Logical, a: LayoutSpec, i: int, j: int)
    requires
        checked(l, a),
        is_list_like(l),
        0 <= i < a.len,
        is_valid(a.validity, i),
        item_range(l, a, i).0 <= j < item_range(l, a, i).1,
    ensures
        checked(list_item(l), a.children[0]),
        spec_rejects_nulls(list_item(l)) ==> is_valid(a.children[0].validity, j),
    decreases l,
{
    lemma_accepted_layout(l, a);
    let child = a.children[0];
    match l {
        Logical::Nullable(inner) | Logical::IgnoreValidity(inner) => {
            lemma_list_items_checked(*inner, a, i, j);
        },
        Logical::List(inner) | Logical::LargeList(inner) => {
            lemma_item_check_zero(*inner, list_nulls(a, child), downcast_nulls(*inner, child));
            if spec_rejects_nulls(*inner) {
                lemma_list_row_zero(a.offsets, a.validity, child.validity, a.len as int, i);
                lemma_nulls_in_zero(child.validity, a.offsets[i] as int, a.offsets[i + 1] as int, j);
            }
        },
        Logical::ListView(inner) | Logical::LargeListView(inner) => {
            lemma_item_check_zero(*inner, view_nulls(a), downcast_nulls(*inner, child));
            if spec_rejects_nulls(*inner) {
                lemma_view_row_zero(a.offsets, a.sizes, a.validity, child.validity, a.len as int, i);
                lemma_nulls_in_zero(child.validity, a.offsets[i] as int, a.offsets[i] + a.sizes[i], j);
            }
        },
        Logical::FixedSizeList(inner, n) => {
            lemma_item_check_zero(*inner, fixed_nulls(a, n as int), downcast_nulls(*inner, child));
            if spec_rejects_nulls(*inner) {
                lemma_fixed_row_zero(a, n as int, i, j);
            }
        },
        Logical::AnyList(inner) => match a.data_type {
            DataTypeSpec::List(_) | DataTypeSpec::LargeList(_) => {
                lemma_item_check_zero(*inner, list_nulls(a, child), downcast_nulls(*inner, child));
                if spec_rejects_nulls(*inner) {
                    lemma_list_row_zero(a.offsets, a.validity, child.validity, a.len as int, i);
                    lemma_nulls_in_zero(child.validity, a.offsets[i] as int, a.offsets[i + 1] as int, j);
                }
            },
            DataTypeSpec::ListView(_) | DataTypeSpec::LargeListView(_) => {
                lemma_item_check_zero(*inner, view_nulls(a), downcast_nulls(*inner, child));
                if spec_rejects_nulls(*inner) {
                    lemma_view_row_zero(a.offsets, a.sizes, a.validity, child.validity, a.len as int, i);
                    lemma_nulls_in_zero(child.validity, a.offsets[i] as int, a.offsets[i] + a.sizes[i], j);
                }
            },
            DataTypeSpec::FixedSizeList(_, m) => {
                lemma_item_check_zero(*inner, fixed_nulls(a, m as int), downcast_nulls(*inner, child));
                if spec_rejects_nulls(*inner) {
                    lemma_fixed_row_zero(a, m as int, i, j);
                }
            },
            _ => {},
        },
        _ => {},
    }
}

proof fn lemma_fixed_row_zero(a: LayoutSpec, size: int, i: int, j: int)
    requires
        fixed_shape_ok(a, size),
        fixed_nulls(a, size) == 0,
        0 <= i < a.len,
        is_valid(a.validity, i),
        a.offset + i * size <= j < a.offset + (i + 1) * size,
    ensures
        is_valid(a.children[0].validity, j),
{
    let offs = fixed_offsets(a.offset as int, size, a.len as int);
    lemma_list_row_zero(offs, a.validity, a.children[0].validity, a.len as int, i);
    assert((i + 1) * size <= a.len * size) by (nonlinear_arith)
        requires
            i + 1 <= a.len,
            0 <= size,
    ;
    assert(0 <= i * size) by (nonlinear_arith)
        requires
            0 <= i,
            0 <= size,
    ;
    assert(offs[i] == a.offset + i * size);
    assert(offs[i + 1] == a.offset + (i + 1) * size);
    lemma_nulls_in_zero(a.children[0].validity, offs[i] as int, offs[i + 1] as int, j);
}

/// The keys and the values of the entries of a valid row of a checked map
/// array pass the checks of the key and value types, and each entry slot is
/// valid where its type rejects nulls.
pub proof fn lemma_map_entries_checked(k: Logical, v: Logical, a: LayoutSpec, i: int, j: int)
    requires
        checked(Logical::MapOf(Box::new(k), Box::new(v)), a),
        0 <= i < a.len,
        is_valid(a.validity, i),
        a.offsets[i] <= j < a.offsets[i + 1],
    ensures
        checked(k, a.children[0]),
        checked(v, a.children[1]),
        spec_rejects_nulls(k) ==> is_valid(a.children[0].validity, j),
        spec_rejects_nulls(v) ==> is_valid(a.children[1].validity, j),
{
    let l = Logical::MapOf(Box::new(k), Box::new(v));
    lemma_accepted_layout(l, a);
    let keys = a.children[0];
    let values = a.children[1];
    let rest = if downcast_nulls(k, keys) > 0 {
        downcast_nulls(k, keys)
    } else {
        downcast_nulls(v, values)
    };
    lemma_item_check_zero(k, list_nulls(a, keys), item_check(v, list_nulls(a, values), rest));
    lemma_item_check_zero(v, list_nulls(a, values), rest);
    if spec_rejects_nulls(k) {
        lemma_list_row_zero(a.offsets, a.validity, keys.validity, a.len as int, i);
        lemma_nulls_in_zero(keys.validity, a.offsets[i] as int, a.offsets[i + 1] as int, j);
    }
    if spec_rejects_nulls(v) {
        lemma_list_row_zero(a.offsets, a.validity, values.validity, a.len as int, i);
        lemma_nulls_in_zero(values.validity, a.offsets[i] as int, a.offsets[i + 1] as int, j);
    }
}

/// The value table of a checked dictionary array passes the checks of the
/// value type, and the entry a valid row's key points at is not null where
/// the value type rejects nulls.
pub proof fn lemma_dictionary_entry_checked(key: Logical, v: Logical, a: LayoutSpec, i: int)
    requires
        checked(Logical::Dictionary(Box::new(key), Box::new(v)), a),
        0 <= i < a.len,
        is_valid(a.validity, i),
    ensures
        checked(v, a.children[0]),
        a.offsets[i] < a.children[0].len,
        spec_rejects_nulls(v) ==> is_valid(a.children[0].validity, a.offsets[i] as int),
{
    let l = Logical::Dictionary(Box::new(key), Box::new(v));
    lemma_accepted_layout(l, a);
    let values = a.children[0];
    lemma_item_check_zero(v, dict_nulls(a), downcast_nulls(v, values));
    if spec_rejects_nulls(v) {
        lemma_dict_row_zero(a.offsets, a.validity, values.validity, a.len as int, i);
    }
}

/// A slice is a window on the rows: row `i` of the slice `off..off + n`
/// reads as row `off + i` of the array — the same null, the same items or
/// entries, the same value position, at the same place in the buffers.
pub proof fn lemma_slice_reads(l: Logical, a: LayoutSpec, b: LayoutSpec, off: int, n: int, i: int)
    requires
        array_ok(a),
        spec_accepts(l, a.data_type),
        is_slice_of(b, a, off, n),
        0 <= i < n,
    ensures
        spec_is_null(l, b, i) == spec_is_null(l, a, off + i),
        is_list_like(l) || is_map_like(l) ==> item_range(l, b, i) == item_range(l, a, off + i),
        value_position(l, b, i) == value_position(l, a, off + i),
        !(a.data_type is FixedSizeList) ==> b.offset + i == a.offset + (off + i),
    decreases l,
{
    lemma_accepted_layout(l, a);
    lemma_sub_validity(a.validity, a.len as int, off, n);
    match l {
        Logical::Nullable(inner) | Logical::IgnoreValidity(inner) => {
            lemma_slice_reads(*inner, a, b, off, n, i);
        },
        Logical::FixedSizeList(_, m) => {
            assert(a.offset + off * m + i * m == a.offset + (off + i) * m) by (nonlinear_arith);
            assert(a.offset + off * m + (i + 1) * m == a.offset + (off + i + 1) * m) by (nonlinear_arith);
        },
        Logical::AnyList(_) => match a.data_type {
            DataTypeSpec::FixedSizeList(_, m) => {
                assert(a.offset + off * m + i * m == a.offset + (off + i) * m) by (nonlinear_arith);
                assert(a.offset + off * m + (i + 1) * m == a.offset + (off + i + 1) * m) by (nonlinear_arith);
            },
            _ => {},
        },
        _ => {},
    }
}

impl<L: ConcreteType> TypedArray<L> {
    /// The exact arrow data type of arrays of this logical type.
    pub fn datatype() -> (d: DataType)
        requires
            is_concrete(L::spec_logical()),
        ensures
            d@ == spec_data_type(L::spec_logical()),
    {
        L::data_type()
    }
}

} // verus!
