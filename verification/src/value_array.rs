//! Arrays built from values and read back: an arrow array kept together with
//! its validated layout.
//!
//! A [`ValueArray<L>`] holds an arrow array and a [`TypedArray<L>`] whose
//! layout is exactly what the arrow array holds. Building one from values
//! never fails for a [`Buildable`] type within arrow's limits, and reading
//! row `i` gives back the value that row `i` was built from. The same array
//! can be validated against another logical type ([`ValueArray::try_as`]),
//! such as a multi-encoding one, and read through it.

use vstd::prelude::*;

use crate::arrow_arrays::{
    arrow_bytes, arrow_fixed_bytes, arrow_layout, binary_at, binary_view_at, fixed_binary_at,
    fixed_binary_from_bytes, flat_slice, is_flat, large_binary_at, leaf_layout, ArrowArray,
};
use crate::buildable::{leaf_layout_value, lemma_verdicts, readable, Buildable, Flat};
use crate::builder::{
    fixed_layout, flatten, lemma_list_read_back, lemma_padded_index, map_layout, offsets_of, padded, padded_row,
    row_items, rows_of_size, whole_elements,
};
use crate::column::Column;
use crate::column_desc::ColumnDesc;
use crate::data_type::{DataType, DataTypeSpec};
use crate::error::{BuildError, ColumnError};
use crate::layout::{array_ok, downcast_nulls, spec_verdict, top_nulls, verdict_of, ArrayLayout, LayoutSpec};
use crate::logical::{spec_accepts, spec_data_type, spec_rejects_nulls, Logical};
use crate::markers::{AnyBinary, FixedSizeBinary, IgnoreValidity, LogicalType};
use crate::metadata::{owned_pairs, pairs_map, str_pairs_view, string_pairs_view};
use crate::nulls::is_valid;
use crate::slicing::copy_validity;
use crate::typed_array::{item_range, spec_is_null, TypedArray};

verus! {

/// An arrow array together with its layout, validated against `L`.
pub struct ValueArray<L: LogicalType> {
    array: ArrowArray,
    typed: TypedArray<L>,
}

impl<L: LogicalType> View for ValueArray<L> {
    type V = LayoutSpec;

    closed spec fn view(&self) -> LayoutSpec {
        self.typed@
    }
}

impl<L: LogicalType> ValueArray<L> {
    /// The layout is what the arrow array holds.
    #[verifier::type_invariant]
    spec fn tied(self) -> bool {
        &&& arrow_layout(self.array) == self.typed@
        &&& array_ok(self.typed@)
        &&& spec_verdict(L::spec_logical(), self.typed@) is Valid
    }

    /// The arrow array.
    pub closed spec fn arrow(self) -> ArrowArray {
        self.array
    }

    /// Pairs an arrow array with its layout, validated against `L`.
    fn tie(array: ArrowArray, layout: ArrayLayout) -> (r: Self)
        requires
            arrow_layout(array) == layout@,
            array_ok(layout@),
            spec_verdict(L::spec_logical(), layout@) is Valid,
        ensures
            r@ == layout@,
            r.arrow() == array,
    {
        match TypedArray::<L>::try_new(layout) {
            Ok(typed) => ValueArray { array, typed },
            Err(_) => vstd::pervasive::unreached(),
        }
    }

    /// The validated layout.
    pub fn typed(&self) -> (r: &TypedArray<L>)
        ensures
            r@ == self@,
            arrow_layout(self.arrow()) == self@,
            array_ok(self@),
            spec_verdict(L::spec_logical(), self@) is Valid,
    {
        proof {
            use_type_invariant(self);
        }
        &self.typed
    }

    /// The arrow array.
    pub fn as_arrow(&self) -> (r: &ArrowArray)
        ensures
            *r == self.arrow(),
            arrow_layout(*r) == self@,
    {
        proof {
            use_type_invariant(self);
        }
        &self.array
    }

    /// The arrow array, moved out.
    pub fn into_arrow(self) -> (r: ArrowArray)
        ensures
            r == self.arrow(),
            arrow_layout(r) == self@,
    {
        proof {
            use_type_invariant(&self);
        }
        self.array
    }

    /// The number of rows.
    pub fn len(&self) -> (r: usize)
        ensures
            r == self@.len,
    {
        self.typed.len()
    }

    /// Are there no rows?
    pub fn is_empty(&self) -> (r: bool)
        ensures
            r == (self@.len == 0),
    {
        self.typed.is_empty()
    }

    /// Is row `index` null?
    pub fn is_null(&self, index: usize) -> (r: bool)
        requires
            index < self@.len,
        ensures
            r == spec_is_null(L::spec_logical(), self@, index as int),
    {
        self.typed.is_null(index)
    }

    /// A column of this array's layout, with the given metadata (each key
    /// once, with the value of its last occurrence).
    pub fn to_column(&self, metadata: Vec<(String, String)>) -> (r: Column<L>)
        ensures
            r.array@ == self@,
            r.metadata_ok(),
            pairs_map(string_pairs_view(r.metadata@)) == pairs_map(string_pairs_view(metadata@)),
    {
        let layout = self.typed().layout().duplicate();
        match Column::<L>::try_new(layout) {
            Ok(column) => column.with_metadata(metadata),
            Err(_) => vstd::pervasive::unreached(),
        }
    }

    /// The same array, validated against the logical type `M` instead: an
    /// error exactly when `M` does not accept its layout.
    pub fn try_as<M: LogicalType>(self) -> (r: Result<ValueArray<M>, ColumnError>)
        ensures
            match r {
                Ok(m) => m@ == self@ && m.arrow() == self.arrow() && spec_verdict(M::spec_logical(), self@) is Valid,
                Err(e) => verdict_of(Err(e), M::spec_logical(), self@),
            },
    {
        proof {
            use_type_invariant(&self);
        }
        let ValueArray { array, typed } = self;
        let layout = typed.into_layout();
        match TypedArray::<M>::try_new(layout) {
            Ok(typed) => Ok(ValueArray { array, typed }),
            Err(e) => Err(e),
        }
    }

    /// The rows `offset..offset + length` of an array without children,
    /// sharing the arrow buffers.
    fn slice_flat(&self, array: ArrowArray, offset: usize, length: usize) -> (r: Self)
        requires
            offset + length <= self@.len,
            arrow_layout(array) == flat_slice(self@, offset as int, length as int),
            spec_rejects_nulls(L::spec_logical()) ==> top_nulls(self@) == 0,
            forall|a: LayoutSpec| #[trigger] downcast_nulls(L::spec_logical(), a) == 0,
            is_flat(self@.data_type),
        ensures
            r@ == flat_slice(self@, offset as int, length as int),
            r.arrow() == array,
    {
        proof {
            use_type_invariant(self);
        }
        let mut layout = self.typed().layout().duplicate();
        layout.validity = copy_validity(&self.typed().layout().validity, offset, offset + length);
        layout.len = length;
        proof {
            let a = self@;
            let b = layout@;
            assert(b == flat_slice(a, offset as int, length as int));
            crate::slicing::lemma_sub_validity(a.validity, a.len as int, offset as int, length as int);
            if let Some(v) = a.validity {
                crate::slicing::lemma_count_shift(v, offset as int, length as int, 0, length as int);
                crate::nulls::lemma_count_nulls_sub(v, offset as int, offset + length);
            }
            assert(top_nulls(b) <= top_nulls(a));
        }
        ValueArray::tie(array, layout)
    }
}


impl<L: Buildable> ValueArray<L> {
    /// The values of the rows.
    pub closed spec fn contents(self) -> Seq<<L::Owned as DeepView>::V> {
        L::contents(self.array)
    }

    /// An array of the values, none of them null.
    pub fn from_values(values: Vec<L::Owned>) -> (r: Self)
        requires
            L::buildable(values@.map_values(|v: L::Owned| Some(v))),
        ensures
            r@.len == values@.len(),
            r@.validity is None,
            forall|i: int| 0 <= i < values@.len() ==> r.contents()[i] == (#[trigger] values@[i]).deep_view(),
    {
        let ghost vals = values@;
        let options = crate::nested_build::all_present(values);
        let ghost opts = options@;
        let (array, layout) = L::build(options);
        proof {
            L::lemma_type();
            lemma_verdicts(L::spec_logical(), layout@);
            assert(forall|i: int| 0 <= i < opts.len() ==> #[trigger] opts[i] is Some);
            assert forall|i: int| 0 <= i < vals.len() implies L::contents(array)[i] == (#[trigger] vals[i]).deep_view() by {
                assert(opts[i] is Some);
            }
        }
        ValueArray::tie(array, layout)
    }

    /// The value of row `index`.
    pub fn value(&self, index: usize) -> (r: L::Owned)
        requires
            index < self@.len,
        ensures
            r.deep_view() == self.contents()[index as int],
    {
        proof {
            use_type_invariant(self);
            L::lemma_type();
            lemma_verdicts(L::spec_logical(), self@);
        }
        L::read(&self.array, self.typed.layout(), index)
    }

    /// The values, front to back.
    pub fn to_vec(&self) -> (r: Vec<L::Owned>)
        ensures
            r@.len() == self@.len,
            forall|i: int| 0 <= i < self@.len ==> (#[trigger] r@[i]).deep_view() == self.contents()[i],
    {
        let n = self.len();
        let mut out: Vec<L::Owned> = Vec::new();
        let mut i: usize = 0;
        while i < n
            invariant
                n == self@.len,
                i <= n,
                out@.len() == i,
                forall|j: int| 0 <= j < i ==> (#[trigger] out@[j]).deep_view() == self.contents()[j],
            decreases n - i,
        {
            out.push(self.value(i));
            i += 1;
        }
        out
    }
}

impl<L: Flat> ValueArray<L> {
    /// The rows `offset..offset + length`, sharing the arrow buffers.
    pub fn slice(&self, offset: usize, length: usize) -> (r: Self)
        requires
            offset + length <= self@.len,
        ensures
            r@ == flat_slice(self@, offset as int, length as int),
            r.contents() == self.contents().subrange(offset as int, offset + length),
    {
        proof {
            use_type_invariant(self);
            L::lemma_type();
            L::lemma_flat();
            lemma_verdicts(L::spec_logical(), self@);
        }
        let array = L::slice(&self.array, offset, length);
        self.slice_flat(array, offset, length)
    }
}

impl<L: Buildable> ValueArray<Option<L>> {
    /// The values of the rows (those of null rows unspecified).
    pub closed spec fn contents(self) -> Seq<<L::Owned as DeepView>::V> {
        L::contents(self.array)
    }

    /// An array of the optional values: a null row for each `None`.
    pub fn from_nullable_values(values: Vec<Option<L::Owned>>) -> (r: Self)
        requires
            L::buildable(values@),
        ensures
            r@.len == values@.len(),
            forall|i: int|
                0 <= i < values@.len() ==> (#[trigger] spec_is_null(
                    Logical::Nullable(Box::new(L::spec_logical())),
                    r@,
                    i,
                ) <==> values@[i] is None),
            forall|i: int|
                0 <= i < values@.len() && #[trigger] values@[i] is Some ==> r.contents()[i] == values@[i]->0.deep_view(),
    {
        let ghost vals = values@;
        let (array, layout) = L::build(values);
        proof {
            L::lemma_type();
            lemma_verdicts(L::spec_logical(), layout@);
            assert forall|i: int| 0 <= i < vals.len() implies (#[trigger] spec_is_null(
                Logical::Nullable(Box::new(L::spec_logical())),
                layout@,
                i,
            ) <==> vals[i] is None) by {
                assert(spec_is_null(L::spec_logical(), layout@, i) == !is_valid(layout@.validity, i));
                if !(forall|k: int| 0 <= k < vals.len() ==> #[trigger] vals[k] is Some) {
                    assert(layout@.validity == Some(vals.map_values(|v: Option<L::Owned>| v is Some)));
                }
            }
        }
        ValueArray::tie(array, layout)
    }

    /// An array of `len` nulls.
    pub fn new_null(len: usize) -> (r: Self)
        requires
            L::buildable(Seq::new(len as nat, |i: int| None)),
        ensures
            r@.len == len,
            forall|i: int| 0 <= i < len ==> #[trigger] spec_is_null(Logical::Nullable(Box::new(L::spec_logical())), r@, i),
    {
        let mut values: Vec<Option<L::Owned>> = Vec::new();
        let mut i: usize = 0;
        while i < len
            invariant
                i <= len,
                values@ =~= Seq::new(i as nat, |j: int| None),
            decreases len - i,
        {
            values.push(None);
            i += 1;
        }
        let ghost vs = values@;
        let r = Self::from_nullable_values(values);
        proof {
            assert forall|i: int| 0 <= i < len implies #[trigger] spec_is_null(
                Logical::Nullable(Box::new(L::spec_logical())),
                r@,
                i,
            ) by {
                assert(vs[i] is None);
            }
        }
        r
    }

    /// The value of row `index`: `None` for a null row.
    pub fn value(&self, index: usize) -> (r: Option<L::Owned>)
        requires
            index < self@.len,
        ensures
            r is None <==> spec_is_null(Logical::Nullable(Box::new(L::spec_logical())), self@, index as int),
            r matches Some(v) ==> v.deep_view() == self.contents()[index as int],
    {
        proof {
            use_type_invariant(self);
            L::lemma_type();
            lemma_verdicts(L::spec_logical(), self@);
        }
        if self.typed.is_null(index) {
            None
        } else {
            Some(L::read(&self.array, self.typed.layout(), index))
        }
    }

    /// The values, front to back.
    pub fn to_vec(&self) -> (r: Vec<Option<L::Owned>>)
        ensures
            r@.len() == self@.len,
            forall|i: int|
                0 <= i < self@.len ==> ((#[trigger] r@[i]) is None <==> spec_is_null(
                    Logical::Nullable(Box::new(L::spec_logical())),
                    self@,
                    i,
                )),
            forall|i: int| 0 <= i < self@.len ==> (#[trigger] r@[i] matches Some(v) ==> v.deep_view() == self.contents()[i]),
    {
        let n = self.len();
        let mut out: Vec<Option<L::Owned>> = Vec::new();
        let mut i: usize = 0;
        while i < n
            invariant
                n == self@.len,
                i <= n,
                out@.len() == i,
                forall|j: int|
                    0 <= j < i ==> ((#[trigger] out@[j]) is None <==> spec_is_null(
                        Logical::Nullable(Box::new(L::spec_logical())),
                        self@,
                        j,
                    )),
                forall|j: int| 0 <= j < i ==> (#[trigger] out@[j] matches Some(v) ==> v.deep_view() == self.contents()[j]),
            decreases n - i,
        {
            out.push(self.value(i));
            i += 1;
        }
        out
    }
}

impl<L: Flat> ValueArray<Option<L>> {
    /// The rows `offset..offset + length`, sharing the arrow buffers.
    pub fn slice(&self, offset: usize, length: usize) -> (r: Self)
        requires
            offset + length <= self@.len,
        ensures
            r@ == flat_slice(self@, offset as int, length as int),
            r.contents() == self.contents().subrange(offset as int, offset + length),
    {
        proof {
            use_type_invariant(self);
            L::lemma_type();
            L::lemma_flat();
            lemma_verdicts(L::spec_logical(), self@);
            assert forall|a: LayoutSpec| #[trigger] downcast_nulls(Logical::Nullable(Box::new(L::spec_logical())), a)
                == 0 by {
                crate::layout::lemma_nullability_layers(L::spec_logical(), a);
            }
        }
        let array = L::slice(&self.array, offset, length);
        self.slice_flat(array, offset, length)
    }
}

impl<L: Buildable> ValueArray<IgnoreValidity<L>> {
    /// The slots of the rows, whatever the validity says.
    pub closed spec fn contents(self) -> Seq<<L::Owned as DeepView>::V> {
        L::contents(self.array)
    }

    /// The slot of row `index`, read as a value whether or not the row is
    /// marked null.
    pub fn value(&self, index: usize) -> (r: L::Owned)
        requires
            index < self@.len,
        ensures
            r.deep_view() == self.contents()[index as int],
    {
        proof {
            use_type_invariant(self);
            L::lemma_type();
            lemma_verdicts(L::spec_logical(), self@);
        }
        L::read(&self.array, self.typed.layout(), index)
    }

    /// The slots of the rows, front to back.
    pub fn to_vec(&self) -> (r: Vec<L::Owned>)
        ensures
            r@.len() == self@.len,
            forall|i: int| 0 <= i < self@.len ==> (#[trigger] r@[i]).deep_view() == self.contents()[i],
    {
        let n = self.len();
        let mut out: Vec<L::Owned> = Vec::new();
        let mut i: usize = 0;
        while i < n
            invariant
                n == self@.len,
                i <= n,
                out@.len() == i,
                forall|j: int| 0 <= j < i ==> (#[trigger] out@[j]).deep_view() == self.contents()[j],
            decreases n - i,
        {
            out.push(self.value(i));
            i += 1;
        }
        out
    }
}

/// The byte strings of an array of one of the binary encodings.
pub open spec fn binary_contents(a: ArrowArray) -> Seq<Seq<u8>> {
    if arrow_layout(a).data_type is FixedSizeBinary {
        arrow_fixed_bytes(a)
    } else {
        arrow_bytes(a)
    }
}

/// The bytes of row `index` of a layout `AnyBinary` accepts.
fn any_binary_at(array: &ArrowArray, layout: &ArrayLayout, index: usize) -> (r: Vec<u8>)
    requires
        arrow_layout(*array) == layout@,
        spec_accepts(Logical::AnyBinary, layout@.data_type),
        index < layout@.len,
    ensures
        r@ == binary_contents(*array)[index as int],
{
    match &layout.data_type {
        DataType::Binary => binary_at(array, index),
        DataType::LargeBinary => large_binary_at(array, index),
        DataType::BinaryView => binary_view_at(array, index),
        _ => fixed_binary_at(array, index),
    }
}

impl ValueArray<AnyBinary> {
    /// The byte strings of the rows.
    pub closed spec fn contents(self) -> Seq<Seq<u8>> {
        binary_contents(self.array)
    }

    /// The bytes of row `index`, whichever binary encoding holds them.
    pub fn value(&self, index: usize) -> (r: Vec<u8>)
        requires
            index < self@.len,
        ensures
            r@ == self.contents()[index as int],
    {
        proof {
            use_type_invariant(self);
        }
        any_binary_at(&self.array, self.typed.layout(), index)
    }
}

impl ValueArray<Option<AnyBinary>> {
    /// The byte strings of the rows (those of null rows unspecified).
    pub closed spec fn contents(self) -> Seq<Seq<u8>> {
        binary_contents(self.array)
    }

    /// The bytes of row `index`, whichever binary encoding holds them:
    /// `None` for a null row.
    pub fn value(&self, index: usize) -> (r: Option<Vec<u8>>)
        requires
            index < self@.len,
        ensures
            r is None <==> spec_is_null(Logical::Nullable(Box::new(Logical::AnyBinary)), self@, index as int),
            r matches Some(v) ==> v@ == self.contents()[index as int],
    {
        proof {
            use_type_invariant(self);
        }
        if self.typed.is_null(index) {
            None
        } else {
            Some(any_binary_at(&self.array, self.typed.layout(), index))
        }
    }
}

/// Reading back a fixed-size list built from rows: row `i` starts at slot
/// `i * size`, and its `j`th slot holds the `j`th item of the row.
pub proof fn lemma_fixed_read_back<T>(inner: Logical, size: usize, rows: Seq<Option<Vec<T>>>, items: LayoutSpec, i: int, j: int)
    requires
        rows_of_size(rows, size as nat),
        0 <= i < rows.len(),
        0 <= j < size,
        rows[i] is Some,
    ensures
        item_range(Logical::FixedSizeList(Box::new(inner), size), fixed_layout(inner, size, rows, items), i)
            == (i * size, (i + 1) * size),
        padded(rows, size as nat)[i * size + j] == Some(rows[i]->0@[j]),
{
    lemma_padded_index(rows, size as nat, i, j);
}

/// Reading back a map built from rows: row `i` spans the entries
/// `offsets[i]..offsets[i + 1]`, as many as the row has, and the `j`th of
/// them is the row's `j`th entry (duplicate keys kept, in order).
pub proof fn lemma_map_read_back_rows<K, V>(
    k: Logical,
    v: Logical,
    rows: Seq<Option<Vec<(K, V)>>>,
    keys: LayoutSpec,
    values: LayoutSpec,
    i: int,
    j: int,
)
    requires
        flatten(rows).len() <= usize::MAX,
        0 <= i < rows.len(),
        0 <= j < row_items(rows[i]).len(),
    ensures
        item_range(Logical::MapOf(Box::new(k), Box::new(v)), map_layout(k, v, rows, keys, values), i) == (
            offsets_of(rows)[i] as int,
            offsets_of(rows)[i + 1] as int,
        ),
        offsets_of(rows)[i + 1] - offsets_of(rows)[i] == row_items(rows[i]).len(),
        flatten(rows)[offsets_of(rows)[i] + j] == row_items(rows[i])[j],
{
    crate::builder::lemma_list_read_back(rows, i, j);
}

/// Reading back what was built: when an array holds the given values slot
/// by slot, and the values read from it are its slots, the values read are
/// the values it was built from.
pub proof fn lemma_values_read_back<T: DeepView>(built: Seq<T>, slots: Seq<T::V>, read: Seq<T>)
    requires
        slots.len() >= built.len(),
        forall|i: int| 0 <= i < built.len() ==> slots[i] == (#[trigger] built[i]).deep_view(),
        read.len() == built.len(),
        forall|i: int| 0 <= i < read.len() ==> (#[trigger] read[i]).deep_view() == slots[i],
    ensures
        read.map_values(|v: T| v.deep_view()) == built.map_values(|v: T| v.deep_view()),
{
    assert(read.map_values(|v: T| v.deep_view()) =~= built.map_values(|v: T| v.deep_view()));
}

impl<L: Buildable> ColumnDesc<L> {
    /// An array of the values, none of them null, and the column of it that
    /// this descriptor declares: with the declared metadata.
    pub fn new_from_values(&self, values: Vec<L::Owned>) -> (r: (ValueArray<L>, Column<L>))
        requires
            L::buildable(values@.map_values(|v: L::Owned| Some(v))),
        ensures
            r.0@.len == values@.len(),
            r.0@.validity is None,
            forall|i: int| 0 <= i < values@.len() ==> r.0.contents()[i] == (#[trigger] values@[i]).deep_view(),
            r.1.array@ == r.0@,
            r.1.metadata_ok(),
            pairs_map(string_pairs_view(r.1.metadata@)) == pairs_map(str_pairs_view(self.metadata@)),
    {
        let array = ValueArray::<L>::from_values(values);
        let column = array.to_column(owned_pairs(self.metadata));
        (array, column)
    }

    /// An array of `len` nulls, and the nullable column of it that this
    /// descriptor declares: with the declared metadata.
    pub fn new_null(&self, len: usize) -> (r: (ValueArray<Option<L>>, Column<Option<L>>))
        requires
            L::buildable(Seq::new(len as nat, |i: int| None)),
        ensures
            r.0@.len == len,
            forall|i: int| 0 <= i < len ==> #[trigger] spec_is_null(Logical::Nullable(Box::new(L::spec_logical())), r.0@, i),
            r.1.array@ == r.0@,
            r.1.metadata_ok(),
            pairs_map(string_pairs_view(r.1.metadata@)) == pairs_map(str_pairs_view(self.metadata@)),
    {
        let array = ValueArray::<Option<L>>::new_null(len);
        let column = array.to_column(owned_pairs(self.metadata));
        (array, column)
    }
}

impl<const N: usize> ValueArray<FixedSizeBinary<N>> {
    /// The elements of the array, row by row.
    pub closed spec fn elements(self) -> Seq<Seq<u8>> {
        arrow_fixed_bytes(self.array)
    }

    /// An array of the `N`-byte elements of a buffer, without nulls: element
    /// `i` is bytes `i * N..(i + 1) * N`. An error for a trailing partial
    /// element, and for a buffer longer than arrow's 32-bit offsets reach.
    pub fn from_buffer(bytes: Vec<u8>) -> (r: Result<Self, BuildError>)
        requires
            0 < N <= i32::MAX,
        ensures
            match r {
                Ok(a) => {
                    &&& bytes@.len() % (N as nat) == 0
                    &&& bytes@.len() <= i32::MAX
                    &&& a@ == leaf_layout(DataTypeSpec::FixedSizeBinary(N as i32), bytes@.len() / (N as nat), None)
                    &&& a.elements().len() == bytes@.len() / (N as nat)
                    &&& forall|i: int|
                        0 <= i < a.elements().len() ==> #[trigger] a.elements()[i] == bytes@.subrange(
                            i * N,
                            (i + 1) * N,
                        )
                },
                Err(BuildError::PartialElement { bytes: b, width: w }) => bytes@.len() % (N as nat) != 0 && b
                    == bytes@.len() && w == N,
                Err(BuildError::Arrow { .. }) => bytes@.len() % (N as nat) == 0 && bytes@.len() > i32::MAX,
            },
    {
        let len = match whole_elements(bytes.len(), N) {
            Ok(len) => len,
            Err(e) => return Err(e),
        };
        let ghost all = bytes@;
        match fixed_binary_from_bytes(N as i32, bytes) {
            Ok(array) => {
                let layout = leaf_layout_value(DataType::FixedSizeBinary(N as i32), len, None);
                proof {
                    assert(spec_data_type(Logical::FixedSizeBinary(N)) == DataTypeSpec::FixedSizeBinary(N as i32));
                }
                Ok(ValueArray::tie(array, layout))
            },
            Err(message) => Err(BuildError::Arrow { message }),
        }
    }

    /// The element of row `index`.
    pub fn value(&self, index: usize) -> (r: Vec<u8>)
        requires
            index < self@.len,
        ensures
            r@ == self.elements()[index as int],
    {
        proof {
            use_type_invariant(self);
        }
        fixed_binary_at(&self.array, index)
    }
}

} // verus!
