//! Arrow arrays: built from values, and read back.
//!
//! An [`ArrowArray`] holds an arrow array. What it holds is known to the
//! library only through names: [`arrow_layout`], the array read as an
//! [`ArrayLayout`](crate::layout::ArrayLayout) (data type, length, validity,
//! offsets, children); [`arrow_child`], its child arrays; and the values of
//! its slots ([`arrow_i64s`], [`arrow_i32s`], [`arrow_u64s`], [`arrow_strs`],
//! [`arrow_bytes`], [`arrow_fixed_bytes`]). The functions below that call
//! arrow say, over these names, what the arrays they build hold and what a
//! read gives back.

use vstd::prelude::*;

use crate::data_type::{plain_field, DataTypeSpec, TimeUnit};
use crate::logical::str_opt_view;
use crate::layout::LayoutSpec;
use crate::nulls::validity_view;
use crate::slicing::sub_validity;

verus! {

/// An arrow array (`arrow::array::ArrayRef`, a shared `dyn Array`).
///
/// Verus does not take the `dyn` type itself, so it is held here; the
/// library reads it only through the names below.
#[verifier::external_body]
pub struct ArrowArray {
    pub array: arrow::array::ArrayRef,
}

/// What an arrow array holds, read as a layout: its data type, length,
/// validity (absent when it has no null buffer), the offsets of a list or
/// map, and the layouts of its children.
pub uninterp spec fn arrow_layout(a: ArrowArray) -> LayoutSpec;

/// The `i`th child array: the items of a fixed-size list; the keys (0) and
/// values (1) of a map.
pub uninterp spec fn arrow_child(a: ArrowArray, i: int) -> ArrowArray;

/// The value slots of an array of 64-bit integers (`Int64`, `Date64`,
/// `Timestamp`), row by row.
pub uninterp spec fn arrow_i64s(a: ArrowArray) -> Seq<i64>;

/// The value slots of an array of 32-bit integers (`Int32`, `Date32`), row
/// by row.
pub uninterp spec fn arrow_i32s(a: ArrowArray) -> Seq<i32>;

/// The value slots of a `UInt64` array, row by row.
pub uninterp spec fn arrow_u64s(a: ArrowArray) -> Seq<u64>;

/// The byte strings of a `Binary`, `LargeBinary` or `BinaryView` array, row
/// by row.
pub uninterp spec fn arrow_bytes(a: ArrowArray) -> Seq<Seq<u8>>;

/// The value slots of a `FixedSizeBinary` array, row by row.
pub uninterp spec fn arrow_fixed_bytes(a: ArrowArray) -> Seq<Seq<u8>>;

/// The value slots of a `Utf8` array, row by row.
pub uninterp spec fn arrow_strs(a: ArrowArray) -> Seq<Seq<char>>;

/// The layout of an array without children.
pub open spec fn leaf_layout(data_type: DataTypeSpec, len: nat, validity: Option<Seq<bool>>) -> LayoutSpec {
    LayoutSpec {
        data_type,
        len: len as usize,
        validity,
        offsets: Seq::empty(),
        sizes: Seq::empty(),
        offset: 0,
        children: Seq::empty(),
    }
}

/// The validity of optional values: absent when every value is present.
pub open spec fn options_validity<T>(values: Seq<Option<T>>) -> Option<Seq<bool>> {
    if forall|i: int| 0 <= i < values.len() ==> #[trigger] values[i] is Some {
        None
    } else {
        Some(values.map_values(|v: Option<T>| v is Some))
    }
}

/// The number of bytes UTF-8 takes for a character.
pub open spec fn utf8_width(c: char) -> nat {
    if (c as u32) < 0x80 {
        1
    } else if (c as u32) < 0x800 {
        2
    } else if (c as u32) < 0x10000 {
        3
    } else {
        4
    }
}

/// The number of bytes of a string in UTF-8.
pub open spec fn utf8_len(s: Seq<char>) -> nat
    decreases s.len(),
{
    if s.len() == 0 {
        0
    } else {
        utf8_len(s.drop_last()) + utf8_width(s.last())
    }
}

/// The number of bytes, in UTF-8, of the present strings.
pub open spec fn utf8_total(values: Seq<Option<String>>) -> nat
    decreases values.len(),
{
    if values.len() == 0 {
        0
    } else {
        utf8_total(values.drop_last()) + match values.last() {
            Some(s) => utf8_len(s@),
            None => 0,
        }
    }
}

/// The number of bytes of the present byte strings.
pub open spec fn bytes_total(values: Seq<Option<Vec<u8>>>) -> nat
    decreases values.len(),
{
    if values.len() == 0 {
        0
    } else {
        bytes_total(values.drop_last()) + match values.last() {
            Some(s) => s@.len(),
            None => 0,
        }
    }
}

/// `Int64Array::from_iter` over optional values: a null for each `None`. The
/// array has a null buffer only when some value is `None` (arrow's
/// `NullBufferBuilder` materialises one at the first null); the slots of
/// present values hold them, those of nulls the type's default (0).
#[verifier::external_body]
pub(crate) fn int64_array(values: Vec<Option<i64>>) -> (r: ArrowArray)
    ensures
        arrow_layout(r) == leaf_layout(DataTypeSpec::Int64, values@.len(), options_validity(values@)),
        arrow_i64s(r).len() == values@.len(),
        forall|i: int| 0 <= i < values@.len() && #[trigger] values@[i] is Some ==> arrow_i64s(r)[i] == values@[i]->0,
        forall|i: int| 0 <= i < values@.len() && #[trigger] values@[i] is None ==> arrow_i64s(r)[i] == 0,
{
    ArrowArray { array: std::sync::Arc::new(arrow::array::Int64Array::from_iter(values)) }
}

/// `Int32Array::from_iter` over optional values: as [`int64_array`].
#[verifier::external_body]
pub(crate) fn int32_array(values: Vec<Option<i32>>) -> (r: ArrowArray)
    ensures
        arrow_layout(r) == leaf_layout(DataTypeSpec::Int32, values@.len(), options_validity(values@)),
        arrow_i32s(r).len() == values@.len(),
        forall|i: int| 0 <= i < values@.len() && #[trigger] values@[i] is Some ==> arrow_i32s(r)[i] == values@[i]->0,
        forall|i: int| 0 <= i < values@.len() && #[trigger] values@[i] is None ==> arrow_i32s(r)[i] == 0,
{
    ArrowArray { array: std::sync::Arc::new(arrow::array::Int32Array::from_iter(values)) }
}

/// `UInt64Array::from_iter` over optional values: as [`int64_array`].
#[verifier::external_body]
pub(crate) fn uint64_array(values: Vec<Option<u64>>) -> (r: ArrowArray)
    ensures
        arrow_layout(r) == leaf_layout(DataTypeSpec::UInt64, values@.len(), options_validity(values@)),
        arrow_u64s(r).len() == values@.len(),
        forall|i: int| 0 <= i < values@.len() && #[trigger] values@[i] is Some ==> arrow_u64s(r)[i] == values@[i]->0,
        forall|i: int| 0 <= i < values@.len() && #[trigger] values@[i] is None ==> arrow_u64s(r)[i] == 0,
{
    ArrowArray { array: std::sync::Arc::new(arrow::array::UInt64Array::from_iter(values)) }
}

/// `PrimitiveArray::<Int32Type>::value`: as [`int64_at`].
#[verifier::external_body]
pub(crate) fn int32_at(a: &ArrowArray, i: usize) -> (r: i32)
    requires
        arrow_layout(*a).data_type == DataTypeSpec::Int32,
        i < arrow_layout(*a).len,
    ensures
        r == arrow_i32s(*a)[i as int],
{
    arrow::array::AsArray::as_primitive::<arrow::datatypes::Int32Type>(a.array.as_ref()).value(i)
}

/// `PrimitiveArray::<UInt64Type>::value`: as [`int64_at`].
#[verifier::external_body]
pub(crate) fn uint64_at(a: &ArrowArray, i: usize) -> (r: u64)
    requires
        arrow_layout(*a).data_type == DataTypeSpec::UInt64,
        i < arrow_layout(*a).len,
    ensures
        r == arrow_u64s(*a)[i as int],
{
    arrow::array::AsArray::as_primitive::<arrow::datatypes::UInt64Type>(a.array.as_ref()).value(i)
}

/// `Date32Array::from_iter` over optional values: as [`int64_array`].
#[verifier::external_body]
pub(crate) fn date32_array(values: Vec<Option<i32>>) -> (r: ArrowArray)
    ensures
        arrow_layout(r) == leaf_layout(DataTypeSpec::Date32, values@.len(), options_validity(values@)),
        arrow_i32s(r).len() == values@.len(),
        forall|i: int| 0 <= i < values@.len() && #[trigger] values@[i] is Some ==> arrow_i32s(r)[i] == values@[i]->0,
        forall|i: int| 0 <= i < values@.len() && #[trigger] values@[i] is None ==> arrow_i32s(r)[i] == 0,
{
    ArrowArray { array: std::sync::Arc::new(arrow::array::Date32Array::from_iter(values)) }
}

/// `Date64Array::from_iter` over optional values: as [`int64_array`].
#[verifier::external_body]
pub(crate) fn date64_array(values: Vec<Option<i64>>) -> (r: ArrowArray)
    ensures
        arrow_layout(r) == leaf_layout(DataTypeSpec::Date64, values@.len(), options_validity(values@)),
        arrow_i64s(r).len() == values@.len(),
        forall|i: int| 0 <= i < values@.len() && #[trigger] values@[i] is Some ==> arrow_i64s(r)[i] == values@[i]->0,
        forall|i: int| 0 <= i < values@.len() && #[trigger] values@[i] is None ==> arrow_i64s(r)[i] == 0,
{
    ArrowArray { array: std::sync::Arc::new(arrow::array::Date64Array::from_iter(values)) }
}

/// `PrimitiveArray::<Date32Type>::value`: the slot of row `i`.
#[verifier::external_body]
pub(crate) fn date32_at(a: &ArrowArray, i: usize) -> (r: i32)
    requires
        arrow_layout(*a).data_type == DataTypeSpec::Date32,
        i < arrow_layout(*a).len,
    ensures
        r == arrow_i32s(*a)[i as int],
{
    arrow::array::AsArray::as_primitive::<arrow::datatypes::Date32Type>(a.array.as_ref()).value(i)
}

/// `PrimitiveArray::<Date64Type>::value`: the slot of row `i`.
#[verifier::external_body]
pub(crate) fn date64_at(a: &ArrowArray, i: usize) -> (r: i64)
    requires
        arrow_layout(*a).data_type == DataTypeSpec::Date64,
        i < arrow_layout(*a).len,
    ensures
        r == arrow_i64s(*a)[i as int],
{
    arrow::array::AsArray::as_primitive::<arrow::datatypes::Date64Type>(a.array.as_ref()).value(i)
}

/// `TimestampSecondArray::from_iter` over optional values, in the timezone given: as [`int64_array`].
#[verifier::external_body]
pub(crate) fn timestamp_second_array(values: Vec<Option<i64>>, timezone: Option<&'static str>) -> (r: ArrowArray)
    ensures
        arrow_layout(r) == leaf_layout(DataTypeSpec::Timestamp(TimeUnit::Second, str_opt_view(timezone)), values@.len(), options_validity(values@)),
        arrow_i64s(r).len() == values@.len(),
        forall|i: int| 0 <= i < values@.len() && #[trigger] values@[i] is Some ==> arrow_i64s(r)[i] == values@[i]->0,
        forall|i: int| 0 <= i < values@.len() && #[trigger] values@[i] is None ==> arrow_i64s(r)[i] == 0,
{
    ArrowArray { array: std::sync::Arc::new(arrow::array::TimestampSecondArray::from_iter(values).with_timezone_opt(timezone)) }
}

/// `PrimitiveArray::<TimestampSecondType>::value`: the slot of row `i`.
#[verifier::external_body]
pub(crate) fn timestamp_second_at(a: &ArrowArray, i: usize) -> (r: i64)
    requires
        arrow_layout(*a).data_type matches DataTypeSpec::Timestamp(TimeUnit::Second, _),
        i < arrow_layout(*a).len,
    ensures
        r == arrow_i64s(*a)[i as int],
{
    arrow::array::AsArray::as_primitive::<arrow::datatypes::TimestampSecondType>(a.array.as_ref()).value(i)
}

/// `TimestampMillisecondArray::from_iter` over optional values, in the timezone given: as [`int64_array`].
#[verifier::external_body]
pub(crate) fn timestamp_millisecond_array(values: Vec<Option<i64>>, timezone: Option<&'static str>) -> (r: ArrowArray)
    ensures
        arrow_layout(r) == leaf_layout(DataTypeSpec::Timestamp(TimeUnit::Millisecond, str_opt_view(timezone)), values@.len(), options_validity(values@)),
        arrow_i64s(r).len() == values@.len(),
        forall|i: int| 0 <= i < values@.len() && #[trigger] values@[i] is Some ==> arrow_i64s(r)[i] == values@[i]->0,
        forall|i: int| 0 <= i < values@.len() && #[trigger] values@[i] is None ==> arrow_i64s(r)[i] == 0,
{
    ArrowArray { array: std::sync::Arc::new(arrow::array::TimestampMillisecondArray::from_iter(values).with_timezone_opt(timezone)) }
}

/// `PrimitiveArray::<TimestampMillisecondType>::value`: the slot of row `i`.
#[verifier::external_body]
pub(crate) fn timestamp_millisecond_at(a: &ArrowArray, i: usize) -> (r: i64)
    requires
        arrow_layout(*a).data_type matches DataTypeSpec::Timestamp(TimeUnit::Millisecond, _),
        i < arrow_layout(*a).len,
    ensures
        r == arrow_i64s(*a)[i as int],
{
    arrow::array::AsArray::as_primitive::<arrow::datatypes::TimestampMillisecondType>(a.array.as_ref()).value(i)
}

/// `TimestampMicrosecondArray::from_iter` over optional values, in the timezone given: as [`int64_array`].
#[verifier::external_body]
pub(crate) fn timestamp_microsecond_array(values: Vec<Option<i64>>, timezone: Option<&'static str>) -> (r: ArrowArray)
    ensures
        arrow_layout(r) == leaf_layout(DataTypeSpec::Timestamp(TimeUnit::Microsecond, str_opt_view(timezone)), values@.len(), options_validity(values@)),
        arrow_i64s(r).len() == values@.len(),
        forall|i: int| 0 <= i < values@.len() && #[trigger] values@[i] is Some ==> arrow_i64s(r)[i] == values@[i]->0,
        forall|i: int| 0 <= i < values@.len() && #[trigger] values@[i] is None ==> arrow_i64s(r)[i] == 0,
{
    ArrowArray { array: std::sync::Arc::new(arrow::array::TimestampMicrosecondArray::from_iter(values).with_timezone_opt(timezone)) }
}

/// `PrimitiveArray::<TimestampMicrosecondType>::value`: the slot of row `i`.
#[verifier::external_body]
pub(crate) fn timestamp_microsecond_at(a: &ArrowArray, i: usize) -> (r: i64)
    requires
        arrow_layout(*a).data_type matches DataTypeSpec::Timestamp(TimeUnit::Microsecond, _),
        i < arrow_layout(*a).len,
    ensures
        r == arrow_i64s(*a)[i as int],
{
    arrow::array::AsArray::as_primitive::<arrow::datatypes::TimestampMicrosecondType>(a.array.as_ref()).value(i)
}

/// `TimestampNanosecondArray::from_iter` over optional values, in the timezone given: as [`int64_array`].
#[verifier::external_body]
pub(crate) fn timestamp_nanosecond_array(values: Vec<Option<i64>>, timezone: Option<&'static str>) -> (r: ArrowArray)
    ensures
        arrow_layout(r) == leaf_layout(DataTypeSpec::Timestamp(TimeUnit::Nanosecond, str_opt_view(timezone)), values@.len(), options_validity(values@)),
        arrow_i64s(r).len() == values@.len(),
        forall|i: int| 0 <= i < values@.len() && #[trigger] values@[i] is Some ==> arrow_i64s(r)[i] == values@[i]->0,
        forall|i: int| 0 <= i < values@.len() && #[trigger] values@[i] is None ==> arrow_i64s(r)[i] == 0,
{
    ArrowArray { array: std::sync::Arc::new(arrow::array::TimestampNanosecondArray::from_iter(values).with_timezone_opt(timezone)) }
}

/// `PrimitiveArray::<TimestampNanosecondType>::value`: the slot of row `i`.
#[verifier::external_body]
pub(crate) fn timestamp_nanosecond_at(a: &ArrowArray, i: usize) -> (r: i64)
    requires
        arrow_layout(*a).data_type matches DataTypeSpec::Timestamp(TimeUnit::Nanosecond, _),
        i < arrow_layout(*a).len,
    ensures
        r == arrow_i64s(*a)[i as int],
{
    arrow::array::AsArray::as_primitive::<arrow::datatypes::TimestampNanosecondType>(a.array.as_ref()).value(i)
}

/// `StringArray::from_iter` over optional strings: as [`int64_array`]; a
/// null holds the empty string. Arrow panics when the UTF-8 bytes outgrow its
/// 32-bit offsets.
#[verifier::external_body]
pub(crate) fn utf8_array(values: Vec<Option<String>>) -> (r: ArrowArray)
    requires
        utf8_total(values@) <= i32::MAX,
    ensures
        arrow_layout(r) == leaf_layout(DataTypeSpec::Utf8, values@.len(), options_validity(values@)),
        arrow_strs(r).len() == values@.len(),
        forall|i: int| 0 <= i < values@.len() && #[trigger] values@[i] is Some ==> arrow_strs(r)[i] == values@[i]->0@,
        forall|i: int| 0 <= i < values@.len() && #[trigger] values@[i] is None ==> arrow_strs(r)[i] == Seq::<char>::empty(),
{
    ArrowArray { array: std::sync::Arc::new(arrow::array::StringArray::from_iter(values)) }
}

/// `BinaryArray::from_iter` over optional byte strings: a null for each
/// `None`, holding no bytes; a null buffer only when some value is `None`.
/// Arrow panics when the bytes outgrow its 32-bit offsets.
#[verifier::external_body]
pub(crate) fn binary_array(values: Vec<Option<Vec<u8>>>) -> (r: ArrowArray)
    requires
        bytes_total(values@) <= i32::MAX,
    ensures
        arrow_layout(r) == leaf_layout(DataTypeSpec::Binary, values@.len(), options_validity(values@)),
        arrow_bytes(r).len() == values@.len(),
        forall|i: int| 0 <= i < values@.len() && #[trigger] values@[i] is Some ==> arrow_bytes(r)[i] == values@[i]->0@,
        forall|i: int| 0 <= i < values@.len() && #[trigger] values@[i] is None ==> arrow_bytes(r)[i] == Seq::<u8>::empty(),
{
    ArrowArray { array: std::sync::Arc::new(arrow::array::BinaryArray::from_iter(values)) }
}

/// `LargeBinaryArray::from_iter`: as [`binary_array`], with 64-bit offsets.
#[verifier::external_body]
pub(crate) fn large_binary_array(values: Vec<Option<Vec<u8>>>) -> (r: ArrowArray)
    requires
        bytes_total(values@) <= i64::MAX,
    ensures
        arrow_layout(r) == leaf_layout(DataTypeSpec::LargeBinary, values@.len(), options_validity(values@)),
        arrow_bytes(r).len() == values@.len(),
        forall|i: int| 0 <= i < values@.len() && #[trigger] values@[i] is Some ==> arrow_bytes(r)[i] == values@[i]->0@,
        forall|i: int| 0 <= i < values@.len() && #[trigger] values@[i] is None ==> arrow_bytes(r)[i] == Seq::<u8>::empty(),
{
    ArrowArray { array: std::sync::Arc::new(arrow::array::LargeBinaryArray::from_iter(values)) }
}

/// `GenericBinaryArray::<i32>::value`: the bytes of row `i`, copied.
#[verifier::external_body]
pub(crate) fn binary_at(a: &ArrowArray, i: usize) -> (r: Vec<u8>)
    requires
        arrow_layout(*a).data_type == DataTypeSpec::Binary,
        i < arrow_layout(*a).len,
    ensures
        r@ == arrow_bytes(*a)[i as int],
{
    arrow::array::AsArray::as_binary::<i32>(a.array.as_ref()).value(i).to_vec()
}

/// `GenericBinaryArray::<i64>::value`: the bytes of row `i`, copied.
#[verifier::external_body]
pub(crate) fn large_binary_at(a: &ArrowArray, i: usize) -> (r: Vec<u8>)
    requires
        arrow_layout(*a).data_type == DataTypeSpec::LargeBinary,
        i < arrow_layout(*a).len,
    ensures
        r@ == arrow_bytes(*a)[i as int],
{
    arrow::array::AsArray::as_binary::<i64>(a.array.as_ref()).value(i).to_vec()
}

/// `BinaryViewArray::value`: the bytes of row `i`, copied.
#[verifier::external_body]
pub(crate) fn binary_view_at(a: &ArrowArray, i: usize) -> (r: Vec<u8>)
    requires
        arrow_layout(*a).data_type == DataTypeSpec::BinaryView,
        i < arrow_layout(*a).len,
    ensures
        r@ == arrow_bytes(*a)[i as int],
{
    arrow::array::AsArray::as_binary_view(a.array.as_ref()).value(i).to_vec()
}

/// `PrimitiveArray::<Int64Type>::value`: the slot of row `i` (arrow panics on
/// an index out of bounds, and the downcast on another data type).
#[verifier::external_body]
pub(crate) fn int64_at(a: &ArrowArray, i: usize) -> (r: i64)
    requires
        arrow_layout(*a).data_type == DataTypeSpec::Int64,
        i < arrow_layout(*a).len,
    ensures
        r == arrow_i64s(*a)[i as int],
{
    arrow::array::AsArray::as_primitive::<arrow::datatypes::Int64Type>(a.array.as_ref()).value(i)
}

/// `GenericStringArray::<i32>::value`: the string of row `i`, copied.
#[verifier::external_body]
pub(crate) fn utf8_at(a: &ArrowArray, i: usize) -> (r: String)
    requires
        arrow_layout(*a).data_type == DataTypeSpec::Utf8,
        i < arrow_layout(*a).len,
    ensures
        r@ == arrow_strs(*a)[i as int],
{
    arrow::array::AsArray::as_string::<i32>(a.array.as_ref()).value(i).to_string()
}

/// Data types of arrays whose slots are the rows themselves.
pub open spec fn is_flat(d: DataTypeSpec) -> bool {
    d is Int32 || d is Int64 || d is UInt64 || d is Utf8 || d is FixedSizeBinary || d is Binary || d is LargeBinary
        || d is Date32 || d is Date64 || d is Timestamp
}

/// The layout of the rows `off..off + n` of an array without children.
pub open spec fn flat_slice(a: LayoutSpec, off: int, n: int) -> LayoutSpec {
    LayoutSpec {
        data_type: a.data_type,
        len: n as usize,
        validity: sub_validity(a.validity, off, n),
        offsets: a.offsets,
        sizes: a.sizes,
        offset: a.offset,
        children: a.children,
    }
}

/// `Array::slice`: the rows `offset..offset + length`, sharing the buffers
/// (arrow panics on a range out of bounds). The null buffer, if any, is
/// sliced with the rows; the slots are those of the rows kept.
#[verifier::external_body]
pub(crate) fn slice_array(a: &ArrowArray, offset: usize, length: usize) -> (r: ArrowArray)
    requires
        offset + length <= arrow_layout(*a).len,
    ensures
        is_flat(arrow_layout(*a).data_type) ==> arrow_layout(r) == flat_slice(arrow_layout(*a), offset as int, length as int),
        (arrow_layout(*a).data_type is Int64 || arrow_layout(*a).data_type is Date64 || arrow_layout(*a).data_type is Timestamp)
            ==> arrow_i64s(r) == arrow_i64s(*a).subrange(offset as int, offset + length),
        (arrow_layout(*a).data_type is Int32 || arrow_layout(*a).data_type is Date32) ==> arrow_i32s(r) == arrow_i32s(*a).subrange(
            offset as int,
            offset + length,
        ),
        arrow_layout(*a).data_type is UInt64 ==> arrow_u64s(r) == arrow_u64s(*a).subrange(offset as int, offset + length),
        arrow_layout(*a).data_type is Utf8 ==> arrow_strs(r) == arrow_strs(*a).subrange(offset as int, offset + length),
        (arrow_layout(*a).data_type is Binary || arrow_layout(*a).data_type is LargeBinary) ==> arrow_bytes(r)
            == arrow_bytes(*a).subrange(offset as int, offset + length),
        arrow_layout(*a).data_type is FixedSizeBinary ==> arrow_fixed_bytes(r) == arrow_fixed_bytes(*a).subrange(
            offset as int,
            offset + length,
        ),
{
    ArrowArray { array: a.array.slice(offset, length) }
}

/// `FixedSizeBinaryArray::try_new` over a buffer of `width`-byte elements,
/// without nulls: element `i` is bytes `i * width..(i + 1) * width`. Arrow
/// refuses a buffer longer than its 32-bit offsets reach.
#[verifier::external_body]
pub(crate) fn fixed_binary_from_bytes(width: i32, bytes: Vec<u8>) -> (r: Result<ArrowArray, String>)
    requires
        0 < width,
        bytes@.len() % (width as nat) == 0,
    ensures
        r is Ok <==> bytes@.len() <= i32::MAX,
        r matches Ok(a) ==> arrow_layout(a) == leaf_layout(
            DataTypeSpec::FixedSizeBinary(width),
            bytes@.len() / (width as nat),
            None,
        ) && arrow_fixed_bytes(a).len() == bytes@.len() / (width as nat) && forall|i: int|
            0 <= i < bytes@.len() / (width as nat) ==> #[trigger] arrow_fixed_bytes(a)[i] == bytes@.subrange(
                i * width,
                (i + 1) * width,
            ),
{
    match arrow::array::FixedSizeBinaryArray::try_new(width, arrow::buffer::Buffer::from(bytes), None) {
        Ok(array) => Ok(ArrowArray { array: std::sync::Arc::new(array) }),
        Err(e) => Err(e.to_string()),
    }
}

/// `FixedSizeBinaryArray::value`: the bytes of row `i`, copied.
#[verifier::external_body]
pub(crate) fn fixed_binary_at(a: &ArrowArray, i: usize) -> (r: Vec<u8>)
    requires
        arrow_layout(*a).data_type is FixedSizeBinary,
        i < arrow_layout(*a).len,
    ensures
        r@ == arrow_fixed_bytes(*a)[i as int],
{
    arrow::array::AsArray::as_fixed_size_binary(a.array.as_ref()).value(i).to_vec()
}

/// `ListArray::new` (32-bit offsets) over an items array, its item field
/// named `item_name`, of the items' data type. Arrow panics unless the
/// offsets start at or above 0, never decrease, end within the items, and
/// number one more than the validity, and unless a non-nullable item field's
/// items have no nulls.
#[verifier::external_body]
pub(crate) fn list_array(item_name: &str, item_nullable: bool, items: ArrowArray, offsets: Vec<i32>, validity: Option<Vec<bool>>) -> (r: ArrowArray)
    requires
        item_nullable || arrow_layout(items).validity is None,
        offsets@.len() >= 1,
        offsets@[0] >= 0,
        forall|i: int, j: int| 0 <= i <= j < offsets@.len() ==> offsets@[i] <= offsets@[j],
        offsets@.last() <= arrow_layout(items).len,
        validity matches Some(v) ==> v@.len() + 1 == offsets@.len(),
    ensures
        arrow_layout(r) == (LayoutSpec {
            data_type: DataTypeSpec::List(Box::new(plain_field(item_name@, arrow_layout(items).data_type, item_nullable))),
            len: (offsets@.len() - 1) as usize,
            validity: validity_view(&validity),
            offsets: offsets@.map_values(|o: i32| o as usize),
            sizes: Seq::empty(),
            offset: 0,
            children: seq![arrow_layout(items)],
        }),
        arrow_child(r, 0) == items,
{
    let field = std::sync::Arc::new(arrow::datatypes::Field::new(item_name, items.array.data_type().clone(), item_nullable));
    let offsets = arrow::buffer::OffsetBuffer::new(arrow::buffer::ScalarBuffer::from(offsets));
    let nulls = validity.map(arrow::buffer::NullBuffer::from);
    ArrowArray { array: std::sync::Arc::new(arrow::array::ListArray::new(field, offsets, items.array, nulls)) }
}

/// `GenericListArray::<i32>::values`: the items array (shared, not copied).
#[verifier::external_body]
pub(crate) fn list_items(a: &ArrowArray) -> (r: ArrowArray)
    requires
        arrow_layout(*a).data_type is List,
    ensures
        r == arrow_child(*a, 0),
        arrow_layout(r) == arrow_layout(*a).children[0],
{
    ArrowArray { array: std::sync::Arc::clone(arrow::array::AsArray::as_list::<i32>(a.array.as_ref()).values()) }
}

/// `FixedSizeListArray::new` over an items array, its item field named
/// `item_name`, nullable, of the items' data type. Arrow panics unless the
/// size is positive here and the items fill whole rows, as many as the
/// validity has entries.
#[verifier::external_body]
pub(crate) fn fixed_size_list_array(item_name: &str, size: i32, items: ArrowArray, validity: Option<Vec<bool>>) -> (r: ArrowArray)
    requires
        0 < size,
        (arrow_layout(items).len as nat) % (size as nat) == 0,
        validity matches Some(v) ==> v@.len() * size == arrow_layout(items).len,
    ensures
        arrow_layout(r) == (LayoutSpec {
            data_type: DataTypeSpec::FixedSizeList(
                Box::new(plain_field(item_name@, arrow_layout(items).data_type, true)),
                size,
            ),
            len: ((arrow_layout(items).len as nat) / (size as nat)) as usize,
            validity: validity_view(&validity),
            offsets: Seq::empty(),
            sizes: Seq::empty(),
            offset: 0,
            children: seq![arrow_layout(items)],
        }),
        arrow_child(r, 0) == items,
{
    let field = std::sync::Arc::new(arrow::datatypes::Field::new(item_name, items.array.data_type().clone(), true));
    let nulls = validity.map(arrow::buffer::NullBuffer::from);
    ArrowArray { array: std::sync::Arc::new(arrow::array::FixedSizeListArray::new(field, size, items.array, nulls)) }
}

/// `StructArray::new` over the keys and values arrays, the fields named
/// `key_name` (non-nullable) and `value_name`, without a null buffer: the
/// `{key, value}` entries of a map. Arrow panics unless both arrays have the
/// same length and a non-nullable field's array has no nulls.
#[verifier::external_body]
pub(crate) fn entries_array(key_name: &str, value_name: &str, values_nullable: bool, keys: ArrowArray, values: ArrowArray) -> (r: ArrowArray)
    requires
        arrow_layout(keys).len == arrow_layout(values).len,
        arrow_layout(keys).validity is None,
        values_nullable || arrow_layout(values).validity is None,
    ensures
        arrow_layout(r) == (LayoutSpec {
            data_type: DataTypeSpec::Struct(
                seq![
                    plain_field(key_name@, arrow_layout(keys).data_type, false),
                    plain_field(value_name@, arrow_layout(values).data_type, values_nullable),
                ],
            ),
            len: arrow_layout(keys).len,
            validity: None,
            offsets: Seq::empty(),
            sizes: Seq::empty(),
            offset: 0,
            children: seq![arrow_layout(keys), arrow_layout(values)],
        }),
        arrow_child(r, 0) == keys,
        arrow_child(r, 1) == values,
{
    let fields = arrow::datatypes::Fields::from(vec![
        arrow::datatypes::Field::new(key_name, keys.array.data_type().clone(), false),
        arrow::datatypes::Field::new(value_name, values.array.data_type().clone(), values_nullable),
    ]);
    let entries = arrow::array::StructArray::new(fields, vec![keys.array, values.array], None);
    ArrowArray { array: std::sync::Arc::new(entries) }
}

/// `MapArray::new` over `{key, value}` entries (a struct array of two
/// fields, without nulls), the entries field named `entries_name`
/// (non-nullable), the offsets, and the row validity; not ordered. Arrow
/// panics unless the offsets start at or above 0, never decrease, end within
/// the entries, and number one more than the validity.
#[verifier::external_body]
pub(crate) fn map_array(entries_name: &str, entries: ArrowArray, offsets: Vec<i32>, validity: Option<Vec<bool>>) -> (r: ArrowArray)
    requires
        arrow_layout(entries).data_type matches DataTypeSpec::Struct(fs) && fs.len() == 2,
        arrow_layout(entries).validity is None,
        offsets@.len() >= 1,
        offsets@[0] >= 0,
        forall|i: int, j: int| 0 <= i <= j < offsets@.len() ==> offsets@[i] <= offsets@[j],
        offsets@.last() <= arrow_layout(entries).len,
        validity matches Some(v) ==> v@.len() + 1 == offsets@.len(),
    ensures
        arrow_layout(r) == (LayoutSpec {
            data_type: DataTypeSpec::MapOf(
                Box::new(plain_field(entries_name@, arrow_layout(entries).data_type, false)),
                false,
            ),
            len: (offsets@.len() - 1) as usize,
            validity: validity_view(&validity),
            offsets: offsets@.map_values(|o: i32| o as usize),
            sizes: Seq::empty(),
            offset: 0,
            children: arrow_layout(entries).children,
        }),
        arrow_child(r, 0) == arrow_child(entries, 0),
        arrow_child(r, 1) == arrow_child(entries, 1),
{
    let entries = arrow::array::AsArray::as_struct(entries.array.as_ref()).clone();
    let data_type = arrow::array::Array::data_type(&entries).clone();
    let field = std::sync::Arc::new(arrow::datatypes::Field::new(entries_name, data_type, false));
    let offsets = arrow::buffer::OffsetBuffer::new(arrow::buffer::ScalarBuffer::from(offsets));
    let nulls = validity.map(arrow::buffer::NullBuffer::from);
    ArrowArray { array: std::sync::Arc::new(arrow::array::MapArray::new(field, offsets, entries, nulls, false)) }
}

/// `FixedSizeListArray::values`: the items array (shared, not copied).
#[verifier::external_body]
pub(crate) fn fixed_size_list_items(a: &ArrowArray) -> (r: ArrowArray)
    requires
        arrow_layout(*a).data_type is FixedSizeList,
    ensures
        r == arrow_child(*a, 0),
        arrow_layout(r) == arrow_layout(*a).children[0],
{
    ArrowArray { array: std::sync::Arc::clone(arrow::array::AsArray::as_fixed_size_list(a.array.as_ref()).values()) }
}

/// `MapArray::keys`: the keys array (shared, not copied).
#[verifier::external_body]
pub(crate) fn map_keys(a: &ArrowArray) -> (r: ArrowArray)
    requires
        arrow_layout(*a).data_type is MapOf,
    ensures
        r == arrow_child(*a, 0),
        arrow_layout(r) == arrow_layout(*a).children[0],
{
    ArrowArray { array: std::sync::Arc::clone(arrow::array::AsArray::as_map(a.array.as_ref()).keys()) }
}

/// `MapArray::values`: the values array (shared, not copied).
#[verifier::external_body]
pub(crate) fn map_values(a: &ArrowArray) -> (r: ArrowArray)
    requires
        arrow_layout(*a).data_type is MapOf,
    ensures
        r == arrow_child(*a, 1),
        arrow_layout(r) == arrow_layout(*a).children[1],
{
    ArrowArray { array: std::sync::Arc::clone(arrow::array::AsArray::as_map(a.array.as_ref()).values()) }
}

} // verus!
