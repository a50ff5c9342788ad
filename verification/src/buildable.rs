//! Logical types whose arrays can be built from values and read back.
//!
//! A [`Buildable`] type has an owned value per row (`i64`, `String`,
//! `Vec<u8>`, a `Vec` of items for a list, of entries for a map). Building
//! an array from optional values never fails within arrow's limits, gives an
//! array the type reads (well-formed, of an accepted data type, without nulls
//! below the top where the type rejects them) with a null row exactly for each
//! `None`, and reading row `i` gives back the value it was built from.

use vstd::prelude::*;

use crate::arrow_arrays::{
    arrow_bytes, arrow_i32s, arrow_i64s, arrow_layout, arrow_strs, arrow_u64s, binary_array,
    binary_at, bytes_total, flat_slice, int32_array, int32_at, int64_array, int64_at, is_flat,
    large_binary_array, large_binary_at, leaf_layout, options_validity, slice_array, uint64_array,
    uint64_at, utf8_array, utf8_at, utf8_total, ArrowArray, date32_array, date32_at, date64_array,
    date64_at, timestamp_microsecond_array, timestamp_microsecond_at, timestamp_millisecond_array,
    timestamp_millisecond_at, timestamp_nanosecond_array, timestamp_nanosecond_at,
    timestamp_second_array, timestamp_second_at,
};
use crate::data_type::{opt_string_view, DataType, TimeUnit};
use crate::layout::{
    array_ok, downcast_nulls, layouts_view, lemma_nullability_layers, spec_verdict, top_nulls,
    ArrayLayout, LayoutSpec,
};
use crate::logical::{owned, spec_accepts, spec_rejects_nulls, str_opt_view, Logical};
use crate::markers::{
    Binary, Date32, Date64, LargeBinary, LogicalType, TimeUnitSpec, Timestamp, TimezoneSpec, Utf8,
};
use crate::nulls::{is_valid, nulls_in, validity_len, validity_view};
use crate::typed_array::spec_is_null;

verus! {

/// An array that reads as the logical type `l` at every level below the
/// top: well-formed, of a data type `l` accepts, without nulls below the top
/// where `l` rejects them.
pub open spec fn readable(l: Logical, a: LayoutSpec) -> bool {
    &&& array_ok(a)
    &&& spec_accepts(l, a.data_type)
    &&& downcast_nulls(l, a) == 0
}

/// A logical type whose arrays can be built from values and read back.
pub trait Buildable: LogicalType {
    /// The owned value of a row.
    type Owned: DeepView;

    /// The values an array of this type holds, row by row (those of null
    /// rows unspecified).
    spec fn contents(a: ArrowArray) -> Seq<<Self::Owned as DeepView>::V>;

    /// Are these values within arrow's limits?
    spec fn buildable(values: Seq<Option<Self::Owned>>) -> bool;

    /// An array of the values, a null row for each `None`, and its layout.
    fn build(values: Vec<Option<Self::Owned>>) -> (r: (ArrowArray, ArrayLayout))
        requires
            Self::buildable(values@),
        ensures
            arrow_layout(r.0) == r.1@,
            readable(Self::spec_logical(), r.1@),
            r.1@.len == values@.len(),
            r.1@.validity == options_validity(values@),
            forall|i: int|
                0 <= i < values@.len() && #[trigger] values@[i] is Some ==> Self::contents(r.0)[i]
                    == values@[i]->0.deep_view(),
    ;

    /// The value of row `i` of an array this type reads.
    fn read(a: &ArrowArray, layout: &ArrayLayout, i: usize) -> (r: Self::Owned)
        requires
            arrow_layout(*a) == layout@,
            readable(Self::spec_logical(), layout@),
            i < layout@.len,
        ensures
            r.deep_view() == Self::contents(*a)[i as int],
    ;

    /// The type rejects nulls at the top, where a null row is one the
    /// validity marks.
    proof fn lemma_type()
        ensures
            spec_rejects_nulls(Self::spec_logical()),
            forall|a: LayoutSpec, i: int| #[trigger] spec_is_null(Self::spec_logical(), a, i) == !is_valid(a.validity, i),
    ;
}

/// A buildable type whose rows are its slots, with no children: a slice of
/// its arrays shares their buffers.
pub trait Flat: Buildable {
    /// The rows `offset..offset + length`.
    fn slice(a: &ArrowArray, offset: usize, length: usize) -> (r: ArrowArray)
        requires
            readable(Self::spec_logical(), arrow_layout(*a)),
            offset + length <= arrow_layout(*a).len,
        ensures
            arrow_layout(r) == flat_slice(arrow_layout(*a), offset as int, length as int),
            Self::contents(r) == Self::contents(*a).subrange(offset as int, offset + length),
    ;

    /// The type accepts only data types without children, and has no level
    /// below the top.
    proof fn lemma_flat()
        ensures
            forall|d| #[trigger] spec_accepts(Self::spec_logical(), d) ==> is_flat(d),
            forall|a: LayoutSpec| #[trigger] downcast_nulls(Self::spec_logical(), a) == 0,
    ;
}

/// The nullable form of a type that rejects nulls accepts an array exactly
/// when it reads as the type below the top; the type itself, when there are
/// also no null rows.
pub proof fn lemma_verdicts(l: Logical, a: LayoutSpec)
    requires
        spec_rejects_nulls(l),
    ensures
        (spec_verdict(Logical::Nullable(Box::new(l)), a) is Valid) == (spec_accepts(l, a.data_type) && downcast_nulls(l, a)
            == 0),
        (spec_verdict(l, a) is Valid) == (spec_accepts(l, a.data_type) && downcast_nulls(l, a) == 0 && top_nulls(a)
            == 0),
{
    lemma_nullability_layers(l, a);
}

/// The validity of optional values, as built: absent when every value is
/// present.
pub(crate) fn options_validity_of<T>(values: &Vec<Option<T>>) -> (r: Option<Vec<bool>>)
    ensures
        validity_view(&r) == options_validity(values@),
        validity_len(validity_view(&r), values@.len() as int),
{
    let mut flags: Vec<bool> = Vec::new();
    let mut all = true;
    let mut i: usize = 0;
    while i < values.len()
        invariant
            i <= values@.len(),
            flags@ == values@.take(i as int).map_values(|v: Option<T>| v is Some),
            all == (forall|j: int| 0 <= j < i ==> #[trigger] values@[j] is Some),
        decreases values@.len() - i,
    {
        proof {
            assert(values@.take(i + 1) =~= values@.take(i as int).push(values@[i as int]));
        }
        let present = values[i].is_some();
        flags.push(present);
        all = all && present;
        i += 1;
    }
    proof {
        assert(values@.take(values@.len() as int) =~= values@);
    }
    if all {
        None
    } else {
        Some(flags)
    }
}

/// The layout of an array without children, as a value.
pub(crate) fn leaf_layout_value(data_type: DataType, len: usize, validity: Option<Vec<bool>>) -> (r: ArrayLayout)
    ensures
        r@ == leaf_layout(data_type@, len as nat, validity_view(&validity)),
{
    let r = ArrayLayout {
        data_type,
        len,
        validity,
        offsets: Vec::new(),
        sizes: Vec::new(),
        offset: 0,
        children: Vec::new(),
    };
    proof {
        assert(layouts_view(r.children@) =~= Seq::empty());
        assert(r.offsets@ =~= Seq::empty());
        assert(r.sizes@ =~= Seq::empty());
    }
    r
}

/// The layout of the slots of optional values, as built.
fn leaf_parts<T>(data_type: DataType, values: &Vec<Option<T>>) -> (r: ArrayLayout)
    ensures
        r@ == leaf_layout(data_type@, values@.len(), options_validity(values@)),
        is_flat(data_type@) ==> array_ok(r@),
        r@.len == values@.len(),
{
    let validity = options_validity_of(values);
    let r = leaf_layout_value(data_type, values.len(), validity);
    proof {
        assert(validity_len(r@.validity, r@.len as int));
    }
    r
}

impl Buildable for i64 {
    type Owned = i64;

    open spec fn contents(a: ArrowArray) -> Seq<i64> {
        arrow_i64s(a)
    }

    open spec fn buildable(values: Seq<Option<i64>>) -> bool {
        true
    }

    fn build(values: Vec<Option<i64>>) -> (r: (ArrowArray, ArrayLayout)) {
        let layout = leaf_parts(DataType::Int64, &values);
        (int64_array(values), layout)
    }

    fn read(a: &ArrowArray, layout: &ArrayLayout, i: usize) -> (r: i64) {
        int64_at(a, i)
    }

    proof fn lemma_type() {
    }
}

impl Flat for i64 {
    fn slice(a: &ArrowArray, offset: usize, length: usize) -> (r: ArrowArray) {
        slice_array(a, offset, length)
    }

    proof fn lemma_flat() {
    }
}

impl Buildable for i32 {
    type Owned = i32;

    open spec fn contents(a: ArrowArray) -> Seq<i32> {
        arrow_i32s(a)
    }

    open spec fn buildable(values: Seq<Option<i32>>) -> bool {
        true
    }

    fn build(values: Vec<Option<i32>>) -> (r: (ArrowArray, ArrayLayout)) {
        let layout = leaf_parts(DataType::Int32, &values);
        (int32_array(values), layout)
    }

    fn read(a: &ArrowArray, layout: &ArrayLayout, i: usize) -> (r: i32) {
        int32_at(a, i)
    }

    proof fn lemma_type() {
    }
}

impl Flat for i32 {
    fn slice(a: &ArrowArray, offset: usize, length: usize) -> (r: ArrowArray) {
        slice_array(a, offset, length)
    }

    proof fn lemma_flat() {
    }
}

impl Buildable for u64 {
    type Owned = u64;

    open spec fn contents(a: ArrowArray) -> Seq<u64> {
        arrow_u64s(a)
    }

    open spec fn buildable(values: Seq<Option<u64>>) -> bool {
        true
    }

    fn build(values: Vec<Option<u64>>) -> (r: (ArrowArray, ArrayLayout)) {
        let layout = leaf_parts(DataType::UInt64, &values);
        (uint64_array(values), layout)
    }

    fn read(a: &ArrowArray, layout: &ArrayLayout, i: usize) -> (r: u64) {
        uint64_at(a, i)
    }

    proof fn lemma_type() {
    }
}

impl Flat for u64 {
    fn slice(a: &ArrowArray, offset: usize, length: usize) -> (r: ArrowArray) {
        slice_array(a, offset, length)
    }

    proof fn lemma_flat() {
    }
}

impl Buildable for Utf8 {
    type Owned = String;

    open spec fn contents(a: ArrowArray) -> Seq<Seq<char>> {
        arrow_strs(a)
    }

    open spec fn buildable(values: Seq<Option<String>>) -> bool {
        utf8_total(values) <= i32::MAX
    }

    fn build(values: Vec<Option<String>>) -> (r: (ArrowArray, ArrayLayout)) {
        let layout = leaf_parts(DataType::Utf8, &values);
        (utf8_array(values), layout)
    }

    fn read(a: &ArrowArray, layout: &ArrayLayout, i: usize) -> (r: String) {
        utf8_at(a, i)
    }

    proof fn lemma_type() {
    }
}

impl Flat for Utf8 {
    fn slice(a: &ArrowArray, offset: usize, length: usize) -> (r: ArrowArray) {
        slice_array(a, offset, length)
    }

    proof fn lemma_flat() {
    }
}

impl Buildable for Binary {
    type Owned = Vec<u8>;

    open spec fn contents(a: ArrowArray) -> Seq<Seq<u8>> {
        arrow_bytes(a)
    }

    open spec fn buildable(values: Seq<Option<Vec<u8>>>) -> bool {
        bytes_total(values) <= i32::MAX
    }

    fn build(values: Vec<Option<Vec<u8>>>) -> (r: (ArrowArray, ArrayLayout)) {
        let layout = leaf_parts(DataType::Binary, &values);
        let ghost vals = values@;
        let array = binary_array(values);
        proof {
            assert forall|i: int| 0 <= i < vals.len() && #[trigger] vals[i] is Some implies arrow_bytes(array)[i]
                == vals[i]->0.deep_view() by {
                assert(vals[i]->0.deep_view() =~= vals[i]->0@);
            }
        }
        (array, layout)
    }

    fn read(a: &ArrowArray, layout: &ArrayLayout, i: usize) -> (r: Vec<u8>) {
        let r = binary_at(a, i);
        proof {
            assert(r.deep_view() =~= r@);
        }
        r
    }

    proof fn lemma_type() {
    }
}

impl Flat for Binary {
    fn slice(a: &ArrowArray, offset: usize, length: usize) -> (r: ArrowArray) {
        slice_array(a, offset, length)
    }

    proof fn lemma_flat() {
    }
}

impl Buildable for LargeBinary {
    type Owned = Vec<u8>;

    open spec fn contents(a: ArrowArray) -> Seq<Seq<u8>> {
        arrow_bytes(a)
    }

    open spec fn buildable(values: Seq<Option<Vec<u8>>>) -> bool {
        bytes_total(values) <= i64::MAX
    }

    fn build(values: Vec<Option<Vec<u8>>>) -> (r: (ArrowArray, ArrayLayout)) {
        let layout = leaf_parts(DataType::LargeBinary, &values);
        let ghost vals = values@;
        let array = large_binary_array(values);
        proof {
            assert forall|i: int| 0 <= i < vals.len() && #[trigger] vals[i] is Some implies arrow_bytes(array)[i]
                == vals[i]->0.deep_view() by {
                assert(vals[i]->0.deep_view() =~= vals[i]->0@);
            }
        }
        (array, layout)
    }

    fn read(a: &ArrowArray, layout: &ArrayLayout, i: usize) -> (r: Vec<u8>) {
        let r = large_binary_at(a, i);
        proof {
            assert(r.deep_view() =~= r@);
        }
        r
    }

    proof fn lemma_type() {
    }
}

impl Flat for LargeBinary {
    fn slice(a: &ArrowArray, offset: usize, length: usize) -> (r: ArrowArray) {
        slice_array(a, offset, length)
    }

    proof fn lemma_flat() {
    }
}

impl Buildable for Date32 {
    type Owned = i32;

    open spec fn contents(a: ArrowArray) -> Seq<i32> {
        arrow_i32s(a)
    }

    open spec fn buildable(values: Seq<Option<i32>>) -> bool {
        true
    }

    fn build(values: Vec<Option<i32>>) -> (r: (ArrowArray, ArrayLayout)) {
        let layout = leaf_parts(DataType::Date32, &values);
        (date32_array(values), layout)
    }

    fn read(a: &ArrowArray, layout: &ArrayLayout, i: usize) -> (r: i32) {
        date32_at(a, i)
    }

    proof fn lemma_type() {
    }
}

impl Flat for Date32 {
    fn slice(a: &ArrowArray, offset: usize, length: usize) -> (r: ArrowArray) {
        slice_array(a, offset, length)
    }

    proof fn lemma_flat() {
    }
}

impl Buildable for Date64 {
    type Owned = i64;

    open spec fn contents(a: ArrowArray) -> Seq<i64> {
        arrow_i64s(a)
    }

    open spec fn buildable(values: Seq<Option<i64>>) -> bool {
        true
    }

    fn build(values: Vec<Option<i64>>) -> (r: (ArrowArray, ArrayLayout)) {
        let layout = leaf_parts(DataType::Date64, &values);
        (date64_array(values), layout)
    }

    fn read(a: &ArrowArray, layout: &ArrayLayout, i: usize) -> (r: i64) {
        date64_at(a, i)
    }

    proof fn lemma_type() {
    }
}

impl Flat for Date64 {
    fn slice(a: &ArrowArray, offset: usize, length: usize) -> (r: ArrowArray) {
        slice_array(a, offset, length)
    }

    proof fn lemma_flat() {
    }
}

/// The timezone as the library's data types hold it.
fn owned_timezone(timezone: Option<&'static str>) -> (r: Option<String>)
    ensures
        opt_string_view(r) == str_opt_view(timezone),
{
    match timezone {
        Some(z) => Some(owned(z)),
        None => None,
    }
}

impl<U: TimeUnitSpec, Z: TimezoneSpec> Buildable for Timestamp<U, Z> {
    type Owned = i64;

    open spec fn contents(a: ArrowArray) -> Seq<i64> {
        arrow_i64s(a)
    }

    open spec fn buildable(values: Seq<Option<i64>>) -> bool {
        true
    }

    fn build(values: Vec<Option<i64>>) -> (r: (ArrowArray, ArrayLayout)) {
        let unit = U::unit();
        let timezone = Z::timezone();
        let layout = leaf_parts(DataType::Timestamp(unit, owned_timezone(timezone)), &values);
        let array = match unit {
            TimeUnit::Second => timestamp_second_array(values, timezone),
            TimeUnit::Millisecond => timestamp_millisecond_array(values, timezone),
            TimeUnit::Microsecond => timestamp_microsecond_array(values, timezone),
            TimeUnit::Nanosecond => timestamp_nanosecond_array(values, timezone),
        };
        (array, layout)
    }

    fn read(a: &ArrowArray, layout: &ArrayLayout, i: usize) -> (r: i64) {
        match U::unit() {
            TimeUnit::Second => timestamp_second_at(a, i),
            TimeUnit::Millisecond => timestamp_millisecond_at(a, i),
            TimeUnit::Microsecond => timestamp_microsecond_at(a, i),
            TimeUnit::Nanosecond => timestamp_nanosecond_at(a, i),
        }
    }

    proof fn lemma_type() {
    }
}

impl<U: TimeUnitSpec, Z: TimezoneSpec> Flat for Timestamp<U, Z> {
    fn slice(a: &ArrowArray, offset: usize, length: usize) -> (r: ArrowArray) {
        slice_array(a, offset, length)
    }

    proof fn lemma_flat() {
    }
}

} // verus!
